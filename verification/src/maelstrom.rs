//! A node of a Maelstrom test: it turns test messages into requests to the gateway, and what the
//! gateway answers into replies.
use crate::database::{answer, applied};
use crate::json::{escaped, is_plain, json_quoted, law_plain_string_is_not_escaped, write_string};
use crate::kv::{text_option, KVCommand};
use crate::text::{
    decimal, i64_value, integer_text, law_decimal_reads_back, law_integer_reads_back,
    law_unquoted_is_the_middle, law_unquoted_takes_off_one_pair, parse_i64, signed_text,
    trim_quotes, unquoted,
};
use vstd::prelude::*;
use vstd::string::*;

verus! {

/// The error code for a request of which it is unknown whether it took place.
pub const TEMPORARILY_UNAVAILABLE: u32 = 11;

/// The error code for an answer that could not be understood.
pub const CRASH: u32 = 13;

/// The error code for a write that was refused.
pub const ABORT: u32 = 14;

/// The error code for a key that has no value.
pub const KEY_DOES_NOT_EXIST: u32 = 20;

/// The error code for a compare-and-swap that did not take place.
pub const PRECONDITION_FAILED: u32 = 22;

/// A JSON value in a message.
#[derive(Debug, PartialEq, Eq)]
pub enum JsonValue {
    /// A number that is an integer within an `i64`.
    Integer(i64),
    /// A string.
    Text(String),
    /// Anything else, as compact JSON text.
    Other(String),
}

/// The view of a JSON value.
pub enum JsonView {
    Integer(i64),
    Text(Seq<char>),
    Other(Seq<char>),
}

impl View for JsonValue {
    type V = JsonView;

    open spec fn view(&self) -> JsonView {
        match *self {
            JsonValue::Integer(n) => JsonView::Integer(n),
            JsonValue::Text(s) => JsonView::Text(s@),
            JsonValue::Other(s) => JsonView::Other(s@),
        }
    }
}

/// The view of an optional JSON value.
pub open spec fn json_option(v: Option<JsonValue>) -> Option<JsonView> {
    match v {
        Some(j) => Some(j@),
        None => None,
    }
}

/// The body of a message. Its members are those that are `Some`, and the type.
#[derive(Debug, PartialEq, Eq)]
pub struct Body {
    pub msg_type: String,
    pub msg_id: Option<u64>,
    pub in_reply_to: Option<u64>,
    pub node_id: Option<String>,
    pub node_ids: Option<Vec<String>>,
    pub key: Option<JsonValue>,
    pub value: Option<JsonValue>,
    pub from: Option<JsonValue>,
    pub to: Option<JsonValue>,
    pub code: Option<u32>,
    pub text: Option<String>,
}

/// The view of a message body.
pub struct BodyView {
    pub msg_type: Seq<char>,
    pub msg_id: Option<u64>,
    pub in_reply_to: Option<u64>,
    pub node_id: Option<Seq<char>>,
    pub node_ids: Option<Seq<Seq<char>>>,
    pub key: Option<JsonView>,
    pub value: Option<JsonView>,
    pub from: Option<JsonView>,
    pub to: Option<JsonView>,
    pub code: Option<u32>,
    pub text: Option<Seq<char>>,
}

impl View for Body {
    type V = BodyView;

    open spec fn view(&self) -> BodyView {
        BodyView {
            msg_type: self.msg_type@,
            msg_id: self.msg_id,
            in_reply_to: self.in_reply_to,
            node_id: text_option(self.node_id),
            node_ids: match self.node_ids {
                Some(ids) => Some(ids@.map_values(|s: String| s@)),
                None => None,
            },
            key: json_option(self.key),
            value: json_option(self.value),
            from: json_option(self.from),
            to: json_option(self.to),
            code: self.code,
            text: text_option(self.text),
        }
    }
}

/// A message between the nodes and clients of a test.
#[derive(Debug, PartialEq, Eq)]
pub struct Message {
    pub src: String,
    pub dest: String,
    pub body: Body,
}

/// The view of a message.
pub struct MessageView {
    pub src: Seq<char>,
    pub dest: Seq<char>,
    pub body: BodyView,
}

impl View for Message {
    type V = MessageView;

    open spec fn view(&self) -> MessageView {
        MessageView { src: self.src@, dest: self.dest@, body: self.body@ }
    }
}

/// What the gateway answers.
#[derive(Debug, PartialEq, Eq)]
pub struct ShimResponse {
    pub ok: bool,
    pub value: Option<String>,
    pub error: Option<String>,
}

/// What came of a request to the gateway.
#[derive(Debug, PartialEq, Eq)]
pub enum Exchange {
    /// It answered.
    Answered(ShimResponse),
    /// It answered something that could not be understood; why.
    BadAnswer(String),
    /// The request failed; why.
    SendFailed(String),
    /// No answer came in time.
    TimedOut,
}

/// The view of what came of a request.
pub enum ExchangeView {
    Answered { ok: bool, value: Option<Seq<char>>, error: Option<Seq<char>> },
    BadAnswer(Seq<char>),
    SendFailed(Seq<char>),
    TimedOut,
}

impl View for Exchange {
    type V = ExchangeView;

    open spec fn view(&self) -> ExchangeView {
        match *self {
            Exchange::Answered(r) => ExchangeView::Answered {
                ok: r.ok,
                value: text_option(r.value),
                error: text_option(r.error),
            },
            Exchange::BadAnswer(e) => ExchangeView::BadAnswer(e@),
            Exchange::SendFailed(e) => ExchangeView::SendFailed(e@),
            Exchange::TimedOut => ExchangeView::TimedOut,
        }
    }
}

/// An HTTP request to the gateway. The members beside the URL are those of a JSON object that is
/// posted.
#[derive(Debug, PartialEq, Eq)]
pub enum ShimRequest {
    Get { url: String },
    Put { url: String, key: String, value: String },
    Cas { url: String, key: String, expected: String, new_value: String },
}

/// The view of a request to the gateway.
pub enum ShimRequestView {
    Get { url: Seq<char> },
    Put { url: Seq<char>, key: Seq<char>, value: Seq<char> },
    Cas { url: Seq<char>, key: Seq<char>, expected: Seq<char>, new_value: Seq<char> },
}

impl View for ShimRequest {
    type V = ShimRequestView;

    open spec fn view(&self) -> ShimRequestView {
        match *self {
            ShimRequest::Get { url } => ShimRequestView::Get { url: url@ },
            ShimRequest::Put { url, key, value } => ShimRequestView::Put {
                url: url@,
                key: key@,
                value: value@,
            },
            ShimRequest::Cas { url, key, expected, new_value } => ShimRequestView::Cas {
                url: url@,
                key: key@,
                expected: expected@,
                new_value: new_value@,
            },
        }
    }
}

/// The request to read a key.
pub open spec fn get_request(shim_url: Seq<char>, key: Seq<char>) -> ShimRequestView {
    ShimRequestView::Get { url: shim_url + "/kv/get/"@ + key }
}

/// The request to store a value under a key.
pub open spec fn put_request(
    shim_url: Seq<char>,
    key: Seq<char>,
    value: Seq<char>,
) -> ShimRequestView {
    ShimRequestView::Put { url: shim_url + "/kv/put"@, key, value }
}

/// The request to replace one value of a key by another.
pub open spec fn cas_request(
    shim_url: Seq<char>,
    key: Seq<char>,
    expected: Seq<char>,
    new_value: Seq<char>,
) -> ShimRequestView {
    ShimRequestView::Cas { url: shim_url + "/kv/cas"@, key, expected, new_value }
}

/// Makes the request to read a key.
pub(crate) fn make_get_request(shim_url: &str, key: &str) -> (r: ShimRequest)
    ensures
        r@ == get_request(shim_url@, key@),
{
    let mut url = shim_url.to_owned();
    url.append("/kv/get/");
    url.append(key);
    ShimRequest::Get { url }
}

/// Makes the request to store a value under a key.
pub(crate) fn make_put_request(shim_url: &str, key: String, value: String) -> (r: ShimRequest)
    ensures
        r@ == put_request(shim_url@, key@, value@),
{
    let mut url = shim_url.to_owned();
    url.append("/kv/put");
    ShimRequest::Put { url, key, value }
}

/// Makes the request to replace one value of a key by another.
fn make_cas_request(shim_url: &str, key: String, expected: String, new_value: String) -> (r:
    ShimRequest)
    ensures
        r@ == cas_request(shim_url@, key@, expected@, new_value@),
{
    let mut url = shim_url.to_owned();
    url.append("/kv/cas");
    ShimRequest::Cas { url, key, expected, new_value }
}

/// The compact JSON text of a value.
pub open spec fn json_text(v: JsonView) -> Seq<char> {
    match v {
        JsonView::Integer(n) => integer_text(n as int),
        JsonView::Text(s) => json_quoted(s),
        JsonView::Other(s) => s,
    }
}

/// The word by which the store knows a JSON value: its text without the quotation marks at the
/// ends.
pub open spec fn word(v: JsonView) -> Seq<char> {
    unquoted(json_text(v))
}

/// The JSON value that the store's word for it stands for: an integer where it reads as one.
pub open spec fn word_value(s: Seq<char>) -> JsonView {
    match i64_value(s) {
        Some(n) => JsonView::Integer(n),
        None => JsonView::Text(s),
    }
}

/// Finds the word for a JSON value.
pub fn word_of(v: &JsonValue) -> (s: String)
    ensures
        s@ == word(v@),
{
    match v {
        JsonValue::Integer(n) => trim_quotes(signed_text(*n).as_str()),
        JsonValue::Text(t) => trim_quotes(write_string(t.as_str()).as_str()),
        JsonValue::Other(t) => trim_quotes(t.as_str()),
    }
}

/// Finds the JSON value that a word stands for.
pub fn value_of_word(s: String) -> (v: JsonValue)
    ensures
        v@ == word_value(s@),
{
    match parse_i64(s.as_str()) {
        Some(n) => JsonValue::Integer(n),
        None => JsonValue::Text(s),
    }
}

/// A body with a type and the message that it answers, and nothing else.
pub open spec fn plain_body(msg_type: Seq<char>, in_reply_to: Option<u64>) -> BodyView {
    BodyView {
        msg_type,
        msg_id: None,
        in_reply_to,
        node_id: None,
        node_ids: None,
        key: None,
        value: None,
        from: None,
        to: None,
        code: None,
        text: None,
    }
}

/// The body of an error.
pub open spec fn error_view(in_reply_to: Option<u64>, code: u32, text: Seq<char>) -> BodyView {
    BodyView { code: Some(code), text: Some(text), ..plain_body("error"@, in_reply_to) }
}

/// Makes a body with a type and the message that it answers.
fn make_body(msg_type: &str, in_reply_to: Option<u64>) -> (b: Body)
    ensures
        b@ == plain_body(msg_type@, in_reply_to),
{
    Body {
        msg_type: msg_type.to_owned(),
        msg_id: None,
        in_reply_to,
        node_id: None,
        node_ids: None,
        key: None,
        value: None,
        from: None,
        to: None,
        code: None,
        text: None,
    }
}

/// Makes the body of an error.
pub fn error_body(in_reply_to: Option<u64>, code: u32, text: String) -> (b: Body)
    ensures
        b@ == error_view(in_reply_to, code, text@),
{
    let mut b = make_body("error", in_reply_to);
    b.code = Some(code);
    b.text = Some(text);
    b
}

/// The error for an exchange that brought no answer that can be understood.
pub open spec fn failure_view(in_reply_to: Option<u64>, exchange: ExchangeView) -> BodyView {
    match exchange {
        ExchangeView::BadAnswer(e) => error_view(in_reply_to, CRASH, e),
        ExchangeView::SendFailed(e) => error_view(in_reply_to, TEMPORARILY_UNAVAILABLE, e),
        _ => error_view(in_reply_to, TEMPORARILY_UNAVAILABLE, "timeout"@),
    }
}

/// The reply to a read.
pub open spec fn read_view(in_reply_to: Option<u64>, exchange: ExchangeView) -> BodyView {
    match exchange {
        ExchangeView::Answered { ok, value, error: _ } => if !ok {
            error_view(in_reply_to, KEY_DOES_NOT_EXIST, "not found"@)
        } else {
            match value {
                None => error_view(in_reply_to, KEY_DOES_NOT_EXIST, "key not found"@),
                Some(raw) => BodyView {
                    value: Some(word_value(raw)),
                    ..plain_body("read_ok"@, in_reply_to)
                },
            }
        },
        _ => failure_view(in_reply_to, exchange),
    }
}

/// The reply to a write of the kind `done`, which a refusal answers with `code` and the reason,
/// or `otherwise` where none is given.
pub open spec fn change_view(
    in_reply_to: Option<u64>,
    exchange: ExchangeView,
    done: Seq<char>,
    code: u32,
    otherwise: Seq<char>,
) -> BodyView {
    match exchange {
        ExchangeView::Answered { ok, value: _, error } => if ok {
            plain_body(done, in_reply_to)
        } else {
            error_view(
                in_reply_to,
                code,
                match error {
                    Some(e) => e,
                    None => otherwise,
                },
            )
        },
        _ => failure_view(in_reply_to, exchange),
    }
}

/// The reply to a request, by its type.
pub open spec fn reply_view(
    msg_type: Seq<char>,
    in_reply_to: Option<u64>,
    exchange: ExchangeView,
) -> BodyView {
    if msg_type == "read"@ {
        read_view(in_reply_to, exchange)
    } else if msg_type == "write"@ {
        change_view(in_reply_to, exchange, "write_ok"@, ABORT, "write failed"@)
    } else {
        change_view(in_reply_to, exchange, "cas_ok"@, PRECONDITION_FAILED, "cas failed"@)
    }
}

/// Makes the reply to a read.
pub fn read_body(in_reply_to: Option<u64>, exchange: Exchange) -> (b: Body)
    ensures
        b@ == read_view(in_reply_to, exchange@),
{
    match exchange {
        Exchange::Answered(s) => {
            if !s.ok {
                return error_body(in_reply_to, KEY_DOES_NOT_EXIST, "not found".to_owned());
            }
            match s.value {
                None => error_body(in_reply_to, KEY_DOES_NOT_EXIST, "key not found".to_owned()),
                Some(raw) => {
                    let mut b = make_body("read_ok", in_reply_to);
                    b.value = Some(value_of_word(raw));
                    b
                },
            }
        },
        Exchange::BadAnswer(e) => error_body(in_reply_to, CRASH, e),
        Exchange::SendFailed(e) => error_body(in_reply_to, TEMPORARILY_UNAVAILABLE, e),
        Exchange::TimedOut => error_body(
            in_reply_to,
            TEMPORARILY_UNAVAILABLE,
            "timeout".to_owned(),
        ),
    }
}

/// Makes the reply to a write or a compare-and-swap.
fn change_body(
    in_reply_to: Option<u64>,
    exchange: Exchange,
    done: &str,
    code: u32,
    otherwise: &str,
) -> (b: Body)
    ensures
        b@ == change_view(in_reply_to, exchange@, done@, code, otherwise@),
{
    match exchange {
        Exchange::Answered(s) => {
            if s.ok {
                return make_body(done, in_reply_to);
            }
            match s.error {
                Some(e) => error_body(in_reply_to, code, e),
                None => error_body(in_reply_to, code, otherwise.to_owned()),
            }
        },
        Exchange::BadAnswer(e) => error_body(in_reply_to, CRASH, e),
        Exchange::SendFailed(e) => error_body(in_reply_to, TEMPORARILY_UNAVAILABLE, e),
        Exchange::TimedOut => error_body(
            in_reply_to,
            TEMPORARILY_UNAVAILABLE,
            "timeout".to_owned(),
        ),
    }
}

/// Makes the reply to a write.
pub fn write_body(in_reply_to: Option<u64>, exchange: Exchange) -> (b: Body)
    ensures
        b@ == change_view(in_reply_to, exchange@, "write_ok"@, ABORT, "write failed"@),
{
    change_body(in_reply_to, exchange, "write_ok", ABORT, "write failed")
}

/// Makes the reply to a compare-and-swap.
pub fn cas_body(in_reply_to: Option<u64>, exchange: Exchange) -> (b: Body)
    ensures
        b@ == change_view(in_reply_to, exchange@, "cas_ok"@, PRECONDITION_FAILED, "cas failed"@),
{
    change_body(in_reply_to, exchange, "cas_ok", PRECONDITION_FAILED, "cas failed")
}

/// Addresses a body to the sender of a message.
pub fn reply_message(node_id: &str, request: &Message, body: Body) -> (r: Message)
    ensures
        r@ == (MessageView { src: node_id@, dest: request@.src, body: body@ }),
{
    Message { src: node_id.to_owned(), dest: request.src.clone(), body }
}

/// What a node knows: its name, and where the gateway is.
pub struct NodeView {
    pub node_id: Seq<char>,
    pub shim_url: Seq<char>,
}

/// What a node does about a message.
pub enum NodeStep {
    /// It replies at once.
    Reply(Message),
    /// It asks the gateway first.
    Ask(ShimRequest),
    /// It knows no such message, and does nothing.
    Unknown,
}

/// The view of what a node does.
pub enum NodeStepView {
    Reply(MessageView),
    Ask(ShimRequestView),
    Unknown,
}

impl View for NodeStep {
    type V = NodeStepView;

    open spec fn view(&self) -> NodeStepView {
        match *self {
            NodeStep::Reply(m) => NodeStepView::Reply(m@),
            NodeStep::Ask(r) => NodeStepView::Ask(r@),
            NodeStep::Unknown => NodeStepView::Unknown,
        }
    }
}

/// Whether a message is one for which a node asks the gateway.
pub open spec fn is_request(msg_type: Seq<char>) -> bool {
    msg_type == "read"@ || msg_type == "write"@ || msg_type == "cas"@
}

/// Whether a message has the members that one of its type needs.
pub open spec fn is_complete(b: BodyView) -> bool {
    &&& b.msg_type == "init"@ ==> b.node_id is Some
    &&& is_request(b.msg_type) ==> b.key is Some
    &&& b.msg_type == "write"@ ==> b.value is Some
    &&& b.msg_type == "cas"@ ==> b.from is Some && b.to is Some
}

/// What a node knows after a message: the first tells it its name.
pub open spec fn node_after(node: NodeView, msg: MessageView) -> NodeView {
    if msg.body.msg_type == "init"@ {
        NodeView { node_id: msg.body.node_id->0, shim_url: "http://127.0.0.1:8080"@ }
    } else {
        node
    }
}

/// What a node does about a message.
pub open spec fn node_step(node: NodeView, msg: MessageView) -> NodeStepView {
    let b = msg.body;
    if b.msg_type == "init"@ {
        NodeStepView::Reply(
            MessageView {
                src: b.node_id->0,
                dest: msg.src,
                body: plain_body("init_ok"@, b.msg_id),
            },
        )
    } else if b.msg_type == "read"@ {
        NodeStepView::Ask(get_request(node.shim_url, word(b.key->0)))
    } else if b.msg_type == "write"@ {
        NodeStepView::Ask(put_request(node.shim_url, word(b.key->0), word(b.value->0)))
    } else if b.msg_type == "cas"@ {
        NodeStepView::Ask(
            cas_request(node.shim_url, word(b.key->0), word(b.from->0), word(b.to->0)),
        )
    } else {
        NodeStepView::Unknown
    }
}

/// Whether two strings are the same.
fn same_text(a: &String, b: &str) -> (r: bool)
    ensures
        r == (a@ == b@),
{
    *a == b.to_owned()
}

/// A node of a test.
pub struct Node {
    node_id: String,
    shim_url: String,
}

impl View for Node {
    type V = NodeView;

    closed spec fn view(&self) -> NodeView {
        NodeView { node_id: self.node_id@, shim_url: self.shim_url@ }
    }
}

impl Node {
    /// A node that has no name yet.
    pub fn new() -> (n: Node)
        ensures
            n@.node_id == Seq::<char>::empty(),
            n@.shim_url == Seq::<char>::empty(),
    {
        Node { node_id: String::new(), shim_url: String::new() }
    }

    /// Whether a message has the members that one of its type needs.
    pub fn accepts(msg: &Message) -> (r: bool)
        ensures
            r == is_complete(msg@.body),
    {
        let b = &msg.body;
        let t = &b.msg_type;
        if same_text(t, "init") && b.node_id.is_none() {
            return false;
        }
        if same_text(t, "read") && b.key.is_none() {
            return false;
        }
        if same_text(t, "write") && (b.key.is_none() || b.value.is_none()) {
            return false;
        }
        if same_text(t, "cas") && (b.key.is_none() || b.from.is_none() || b.to.is_none()) {
            return false;
        }
        true
    }

    /// Takes in a message, and says what to do about it.
    pub fn handle(&mut self, msg: &Message) -> (r: NodeStep)
        requires
            is_complete(msg@.body),
        ensures
            final(self)@ == node_after(old(self)@, msg@),
            r@ == node_step(old(self)@, msg@),
    {
        let b = &msg.body;
        if same_text(&b.msg_type, "init") {
            if let Some(name) = &b.node_id {
                self.node_id = name.clone();
            }
            self.shim_url = "http://127.0.0.1:8080".to_owned();
            return NodeStep::Reply(
                reply_message(self.node_id.as_str(), msg, make_body("init_ok", b.msg_id)),
            );
        }
        if same_text(&b.msg_type, "read") {
            if let Some(key) = &b.key {
                let key = word_of(key);
                return NodeStep::Ask(make_get_request(self.shim_url.as_str(), key.as_str()));
            }
        }
        if same_text(&b.msg_type, "write") {
            if let (Some(key), Some(value)) = (&b.key, &b.value) {
                return NodeStep::Ask(
                    make_put_request(self.shim_url.as_str(), word_of(key), word_of(value)),
                );
            }
        }
        if same_text(&b.msg_type, "cas") {
            if let (Some(key), Some(from), Some(to)) = (&b.key, &b.from, &b.to) {
                return NodeStep::Ask(
                    make_cas_request(
                        self.shim_url.as_str(),
                        word_of(key),
                        word_of(from),
                        word_of(to),
                    ),
                );
            }
        }
        NodeStep::Unknown
    }

    /// Makes the reply to a message about which the gateway was asked.
    pub fn finish(&self, msg: &Message, exchange: Exchange) -> (r: Message)
        requires
            is_request(msg@.body.msg_type),
        ensures
            r@ == (MessageView {
                src: self@.node_id,
                dest: msg@.src,
                body: reply_view(msg@.body.msg_type, msg@.body.msg_id, exchange@),
            }),
    {
        let b = &msg.body;
        let body = if same_text(&b.msg_type, "read") {
            read_body(b.msg_id, exchange)
        } else if same_text(&b.msg_type, "write") {
            write_body(b.msg_id, exchange)
        } else {
            cas_body(b.msg_id, exchange)
        };
        reply_message(self.node_id.as_str(), msg, body)
    }
}

/// Every reply says which message it answers.
pub proof fn law_replies_name_their_request(
    node: NodeView,
    msg: MessageView,
    exchange: ExchangeView,
)
    ensures
        reply_view(msg.body.msg_type, msg.body.msg_id, exchange).in_reply_to == msg.body.msg_id,
        node_step(node, msg) matches NodeStepView::Reply(r) ==> {
            &&& r.dest == msg.src
            &&& r.src == node_after(node, msg).node_id
            &&& r.body.in_reply_to == msg.body.msg_id
        },
{
}

/// A reply has the code for a request of which it is unknown whether it took place exactly where
/// no answer came.
pub proof fn law_unknown_outcome_is_reported(
    msg_type: Seq<char>,
    in_reply_to: Option<u64>,
    exchange: ExchangeView,
)
    ensures
        reply_view(msg_type, in_reply_to, exchange).code == Some(TEMPORARILY_UNAVAILABLE) <==> (
        exchange is SendFailed || exchange is TimedOut),
{
}

/// The word for an integer is its numeral, and stands for the integer.
pub proof fn law_integer_word_reads_back(n: i64)
    ensures
        word(JsonView::Integer(n)) == integer_text(n as int),
        word_value(word(JsonView::Integer(n))) == JsonView::Integer(n),
{
    let s = integer_text(n as int);
    let digits = if n < 0 {
        decimal((-n) as nat)
    } else {
        decimal(n as nat)
    };
    law_integer_reads_back(n);
    law_decimal_reads_back(
        if n < 0 {
            (-n) as nat
        } else {
            n as nat
        },
    );
    assert(s.last() == digits.last());
    assert(s[0] == '-' || s[0] == digits[0]);
    law_unquoted_takes_off_one_pair(s);
}

/// A plain string is its own word. The word stands for the string again, unless it reads as an
/// integer.
pub proof fn law_plain_text_word_reads_back(s: Seq<char>)
    requires
        is_plain(s),
    ensures
        word(JsonView::Text(s)) == s,
        i64_value(s) is None ==> word_value(s) == JsonView::Text(s),
{
    law_plain_string_is_not_escaped(s);
    law_unquoted_takes_off_one_pair(s);
}

/// What a test writes it reads back: where the store applies the put that a write asks for, and
/// then the get that a read of the same key asks for, the reply to the read has the value that was
/// written, if that is an integer or a plain string that does not read as one.
pub proof fn law_written_value_is_read_back(
    store: Map<Seq<char>, Seq<char>>,
    key: JsonView,
    value: JsonView,
    put_key: String,
    put_value: String,
    get_key: String,
    in_reply_to: Option<u64>,
)
    requires
        put_key@ == word(key),
        put_value@ == word(value),
        get_key@ == word(key),
        match value {
            JsonView::Integer(_) => true,
            JsonView::Text(s) => is_plain(s) && i64_value(s) is None,
            JsonView::Other(_) => false,
        },
    ensures
        answer(
            applied(store, KVCommand::Put(put_key, put_value)),
            KVCommand::Get(get_key),
        ) matches Some(Some(found)) && read_view(
            in_reply_to,
            ExchangeView::Answered { ok: true, value: Some(found), error: None },
        ) == (BodyView { value: Some(value), ..plain_body("read_ok"@, in_reply_to) }),
{
    match value {
        JsonView::Integer(n) => law_integer_word_reads_back(n),
        JsonView::Text(s) => law_plain_text_word_reads_back(s),
        JsonView::Other(_) => {},
    }
}

/// The view of a JSON value has its integer or its characters, and an optional one is there where
/// the value is.
pub proof fn law_json_view_keeps_the_value(n: i64, s: String, v: JsonValue)
    ensures
        JsonValue::Integer(n)@ == JsonView::Integer(n),
        JsonValue::Text(s)@ == JsonView::Text(s@),
        JsonValue::Other(s)@ == JsonView::Other(s@),
        json_option(Some(v)) == Some(v@),
        json_option(None) is None,
{
}

/// The view of a message has every member of the message, each under its own name.
pub proof fn law_message_view_keeps_its_members(m: Message, i: int)
    ensures
        m@.src == m.src@,
        m@.dest == m.dest@,
        m@.body == m.body@,
        m.body@.msg_type == m.body.msg_type@,
        m.body@.msg_id == m.body.msg_id,
        m.body@.in_reply_to == m.body.in_reply_to,
        m.body@.node_id == text_option(m.body.node_id),
        m.body.node_ids is None ==> m.body@.node_ids is None,
        m.body.node_ids is Some ==> {
            &&& m.body@.node_ids is Some
            &&& m.body@.node_ids->0.len() == m.body.node_ids->0@.len()
            &&& 0 <= i < m.body.node_ids->0@.len() ==> m.body@.node_ids->0[i]
                == m.body.node_ids->0@[i]@
        },
        m.body@.key == json_option(m.body.key),
        m.body@.value == json_option(m.body.value),
        m.body@.from == json_option(m.body.from),
        m.body@.to == json_option(m.body.to),
        m.body@.code == m.body.code,
        m.body@.text == text_option(m.body.text),
{
}

/// The view of what came of a request tells the four cases apart and keeps what each says.
pub proof fn law_exchange_view_keeps_what_came(r: ShimResponse, why: String)
    ensures
        Exchange::Answered(r)@ == (ExchangeView::Answered {
            ok: r.ok,
            value: text_option(r.value),
            error: text_option(r.error),
        }),
        Exchange::BadAnswer(why)@ == ExchangeView::BadAnswer(why@),
        Exchange::SendFailed(why)@ == ExchangeView::SendFailed(why@),
        Exchange::TimedOut@ is TimedOut,
{
}

/// The view of a request has every member of the request, each under its own name.
pub proof fn law_request_view_keeps_its_members(
    url: String,
    key: String,
    value: String,
    other: String,
)
    ensures
        (ShimRequest::Get { url })@ == (ShimRequestView::Get { url: url@ }),
        (ShimRequest::Put { url, key, value })@ == (ShimRequestView::Put {
            url: url@,
            key: key@,
            value: value@,
        }),
        (ShimRequest::Cas { url, key, expected: value, new_value: other })@ == (
        ShimRequestView::Cas { url: url@, key: key@, expected: value@, new_value: other@ }),
{
}

/// The view of what a node does tells the three cases apart and keeps the reply or the request.
pub proof fn law_step_view_keeps_what_is_done(m: Message, r: ShimRequest)
    ensures
        NodeStep::Reply(m)@ == NodeStepView::Reply(m@),
        NodeStep::Ask(r)@ == NodeStepView::Ask(r@),
        NodeStep::Unknown@ is Unknown,
{
}

/// The names of the messages that a node knows are all different.
proof fn lemma_types_differ()
    ensures
        "init"@ != "read"@,
        "init"@ != "write"@,
        "init"@ != "cas"@,
        "read"@ != "write"@,
        "read"@ != "cas"@,
        "write"@ != "cas"@,
{
    reveal_strlit("init");
    reveal_strlit("read");
    reveal_strlit("write");
    reveal_strlit("cas");
    assert("init"@.len() == 4);
    assert("read"@.len() == 4);
    assert("write"@.len() == 5);
    assert("cas"@.len() == 3);
    assert("init"@[0] == 'i');
    assert("read"@[0] == 'r');
}

/// The JSON text of an integer is its numeral, that of a string stands between quotation marks,
/// and anything else is text already.
pub proof fn law_json_text_of_a_value(n: i64, s: Seq<char>)
    ensures
        json_text(JsonView::Integer(n)) == integer_text(n as int),
        json_text(JsonView::Text(s)) == seq!['"'] + escaped(s) + seq!['"'],
        json_text(JsonView::Other(s)) == s,
{
}

/// The word for a value is its JSON text without the quotation marks at the ends: only quotation
/// marks are taken off, and none is left at either end.
pub proof fn law_word_is_the_text_without_outer_quotes(v: JsonView)
    ensures
        exists|lo: int, hi: int|
            0 <= lo <= hi <= json_text(v).len() && word(v) == #[trigger] json_text(v).subrange(
                lo,
                hi,
            ) && (forall|i: int|
                0 <= i < lo || hi <= i < json_text(v).len() ==> #[trigger] json_text(v)[i] == '"'),
        word(v).len() > 0 ==> word(v)[0] != '"' && word(v).last() != '"',
{
    law_unquoted_is_the_middle(json_text(v));
}

/// A word stands for an integer exactly where it reads as one, and otherwise for itself as text.
pub proof fn law_word_stands_for_what_it_reads_as(s: Seq<char>, n: i64)
    ensures
        i64_value(s) == Some(n) <==> word_value(s) == JsonView::Integer(n),
        i64_value(s) is None ==> word_value(s) == JsonView::Text(s),
{
}

/// The first message tells a node its name and brings it to the gateway; no other message changes
/// what the node knows.
pub proof fn law_only_init_changes_the_node(node: NodeView, msg: MessageView)
    ensures
        msg.body.msg_type == "init"@ && msg.body.node_id is Some ==> {
            &&& node_after(node, msg).node_id == msg.body.node_id->0
            &&& node_after(node, msg).shim_url == "http://127.0.0.1:8080"@
        },
        msg.body.msg_type != "init"@ ==> node_after(node, msg) == node,
{
}

/// The first message is answered at once, to its sender, under the name that it gives the node.
pub proof fn law_init_is_answered_at_once(node: NodeView, msg: MessageView)
    requires
        msg.body.msg_type == "init"@,
        msg.body.node_id is Some,
    ensures
        node_step(node, msg) matches NodeStepView::Reply(r) && {
            &&& r.src == msg.body.node_id->0
            &&& r.dest == msg.src
            &&& r.body.msg_type == "init_ok"@
            &&& r.body.in_reply_to == msg.body.msg_id
            &&& r.body.msg_id is None
            &&& r.body.node_id is None
            &&& r.body.node_ids is None
            &&& r.body.key is None
            &&& r.body.value is None
            &&& r.body.from is None
            &&& r.body.to is None
            &&& r.body.code is None
            &&& r.body.text is None
        },
{
}

/// A read asks the gateway for the very key under which a write of the same key stores. For a
/// plain string that key is the string itself, for an integer its numeral, and for every key the
/// word for it. A write stores the word for its value.
pub proof fn law_read_asks_for_the_key_that_a_write_stores_under(
    node: NodeView,
    read: MessageView,
    write: MessageView,
    key: JsonView,
    value: JsonView,
)
    requires
        read.body.msg_type == "read"@,
        read.body.key == Some(key),
        write.body.msg_type == "write"@,
        write.body.key == Some(key),
        write.body.value == Some(value),
    ensures
        node_step(node, write) matches NodeStepView::Ask(
            ShimRequestView::Put { url: put_url, key: stored, value: put_value },
        ) && {
            &&& put_url == node.shim_url + "/kv/put"@
            &&& put_value == word(value)
            &&& stored == word(key)
            &&& node_step(node, read) matches NodeStepView::Ask(
                ShimRequestView::Get { url: get_url },
            ) && get_url == node.shim_url + "/kv/get/"@ + stored
            &&& key matches JsonView::Text(s) ==> (is_plain(s) ==> stored == s)
            &&& key matches JsonView::Integer(n) ==> stored == integer_text(n as int)
            &&& value matches JsonView::Text(s) ==> (is_plain(s) ==> put_value == s)
            &&& value matches JsonView::Integer(n) ==> put_value == integer_text(n as int)
        },
{
    lemma_types_differ();
    lemma_word_of_plain_values(key);
    lemma_word_of_plain_values(value);
}

/// The word for an integer is its numeral, and that for a plain string is the string.
proof fn lemma_word_of_plain_values(v: JsonView)
    ensures
        v matches JsonView::Text(s) ==> (is_plain(s) ==> word(v) == s),
        v matches JsonView::Integer(n) ==> word(v) == integer_text(n as int),
{
    match v {
        JsonView::Text(s) => {
            if is_plain(s) {
                law_plain_text_word_reads_back(s);
            }
        },
        JsonView::Integer(n) => law_integer_word_reads_back(n),
        JsonView::Other(_) => {},
    }
}

/// A compare-and-swap asks the gateway to replace, under the key under which a write of the same
/// key stores, the value that a write of `from` stores by the value that a write of `to` stores.
pub proof fn law_cas_speaks_of_what_writes_store(
    node: NodeView,
    cas: MessageView,
    write_from: MessageView,
    write_to: MessageView,
    key: JsonView,
    from: JsonView,
    to: JsonView,
)
    requires
        cas.body.msg_type == "cas"@,
        cas.body.key == Some(key),
        cas.body.from == Some(from),
        cas.body.to == Some(to),
        write_from.body.msg_type == "write"@,
        write_from.body.key == Some(key),
        write_from.body.value == Some(from),
        write_to.body.msg_type == "write"@,
        write_to.body.key == Some(key),
        write_to.body.value == Some(to),
    ensures
        node_step(node, cas) matches NodeStepView::Ask(
            ShimRequestView::Cas { url, key: swapped, expected, new_value },
        ) && {
            &&& url == node.shim_url + "/kv/cas"@
            &&& node_step(node, write_from) matches NodeStepView::Ask(
                ShimRequestView::Put { url: _, key: stored, value },
            ) && swapped == stored && expected == value
            &&& node_step(node, write_to) matches NodeStepView::Ask(
                ShimRequestView::Put { url: _, key: stored, value },
            ) && swapped == stored && new_value == value
            &&& swapped == word(key)
            &&& expected == word(from)
            &&& new_value == word(to)
        },
{
    lemma_types_differ();
}

/// A node asks the gateway about reads, writes and compare-and-swaps, replies to the first message
/// itself, and does nothing about any other.
pub proof fn law_node_acts_on_the_messages_it_knows(node: NodeView, msg: MessageView)
    ensures
        node_step(node, msg) is Reply <==> msg.body.msg_type == "init"@,
        node_step(node, msg) is Ask <==> msg.body.msg_type == "read"@ || msg.body.msg_type
            == "write"@ || msg.body.msg_type == "cas"@,
        is_request(msg.body.msg_type) <==> msg.body.msg_type == "read"@ || msg.body.msg_type
            == "write"@ || msg.body.msg_type == "cas"@,
{
    lemma_types_differ();
}

/// The first message has to name the node, a read needs a key, a write a key and a value, and a
/// compare-and-swap a key and two values; no other message needs anything.
pub proof fn law_complete_messages_have_what_they_need(b: BodyView)
    ensures
        b.msg_type == "init"@ ==> (is_complete(b) <==> b.node_id is Some),
        b.msg_type == "read"@ ==> (is_complete(b) <==> b.key is Some),
        b.msg_type == "write"@ ==> (is_complete(b) <==> b.key is Some && b.value is Some),
        b.msg_type == "cas"@ ==> (is_complete(b) <==> b.key is Some && b.from is Some && b.to
            is Some),
        b.msg_type != "init"@ && b.msg_type != "read"@ && b.msg_type != "write"@ && b.msg_type
            != "cas"@ ==> is_complete(b),
{
    lemma_types_differ();
}

/// A bare body has its type and the message that it answers, and an error has besides its code and
/// its text; neither has any other member.
pub proof fn law_bodies_have_nothing_else(
    msg_type: Seq<char>,
    in_reply_to: Option<u64>,
    code: u32,
    text: Seq<char>,
)
    ensures
        plain_body(msg_type, in_reply_to) == (BodyView {
            msg_type,
            msg_id: None,
            in_reply_to,
            node_id: None,
            node_ids: None,
            key: None,
            value: None,
            from: None,
            to: None,
            code: None,
            text: None,
        }),
        error_view(in_reply_to, code, text) == (BodyView {
            msg_type: "error"@,
            msg_id: None,
            in_reply_to,
            node_id: None,
            node_ids: None,
            key: None,
            value: None,
            from: None,
            to: None,
            code: Some(code),
            text: Some(text),
        }),
{
}

/// Whatever a request asked for, an answer that was not understood is a crash for the reason given,
/// and where no answer came the outcome is unknown, for the reason given or for want of time.
pub proof fn law_failed_exchange_is_an_error(
    msg_type: Seq<char>,
    in_reply_to: Option<u64>,
    why: Seq<char>,
)
    ensures
        reply_view(msg_type, in_reply_to, ExchangeView::BadAnswer(why)) == error_view(
            in_reply_to,
            13,
            why,
        ),
        reply_view(msg_type, in_reply_to, ExchangeView::SendFailed(why)) == error_view(
            in_reply_to,
            11,
            why,
        ),
        reply_view(msg_type, in_reply_to, ExchangeView::TimedOut) == error_view(
            in_reply_to,
            11,
            "timeout"@,
        ),
        failure_view(in_reply_to, ExchangeView::BadAnswer(why)) == error_view(in_reply_to, 13, why),
        failure_view(in_reply_to, ExchangeView::SendFailed(why)) == error_view(
            in_reply_to,
            11,
            why,
        ),
        failure_view(in_reply_to, ExchangeView::TimedOut) == error_view(
            in_reply_to,
            11,
            "timeout"@,
        ),
{
}

/// The reply to a read has the value that the answer has, as what its word stands for. A refusal,
/// and an answer without a value, say that the key does not exist.
pub proof fn law_read_is_answered_with_the_value(
    in_reply_to: Option<u64>,
    value: Option<Seq<char>>,
    raw: Seq<char>,
    error: Option<Seq<char>>,
)
    ensures
        reply_view(
            "read"@,
            in_reply_to,
            ExchangeView::Answered { ok: true, value: Some(raw), error },
        ) == (BodyView { value: Some(word_value(raw)), ..plain_body("read_ok"@, in_reply_to) }),
        reply_view("read"@, in_reply_to, ExchangeView::Answered { ok: true, value: None, error })
            == error_view(in_reply_to, 20, "key not found"@),
        reply_view("read"@, in_reply_to, ExchangeView::Answered { ok: false, value, error })
            == error_view(in_reply_to, 20, "not found"@),
        forall|exchange: ExchangeView|
            reply_view("read"@, in_reply_to, exchange) == #[trigger] read_view(
                in_reply_to,
                exchange,
            ),
{
}

/// The reply to a write, and to a compare-and-swap, says that it took place where the gateway took
/// it. A refusal is told with its reason, where it has one; the two have each their own code.
pub proof fn law_change_is_answered_by_its_kind(
    in_reply_to: Option<u64>,
    value: Option<Seq<char>>,
    error: Option<Seq<char>>,
    why: Seq<char>,
)
    ensures
        reply_view("write"@, in_reply_to, ExchangeView::Answered { ok: true, value, error })
            == plain_body("write_ok"@, in_reply_to),
        reply_view(
            "write"@,
            in_reply_to,
            ExchangeView::Answered { ok: false, value, error: Some(why) },
        ) == error_view(in_reply_to, 14, why),
        reply_view("write"@, in_reply_to, ExchangeView::Answered { ok: false, value, error: None })
            == error_view(in_reply_to, 14, "write failed"@),
        reply_view("cas"@, in_reply_to, ExchangeView::Answered { ok: true, value, error })
            == plain_body("cas_ok"@, in_reply_to),
        reply_view(
            "cas"@,
            in_reply_to,
            ExchangeView::Answered { ok: false, value, error: Some(why) },
        ) == error_view(in_reply_to, 22, why),
        reply_view("cas"@, in_reply_to, ExchangeView::Answered { ok: false, value, error: None })
            == error_view(in_reply_to, 22, "cas failed"@),
        forall|exchange: ExchangeView|
            reply_view("write"@, in_reply_to, exchange) == #[trigger] change_view(
                in_reply_to,
                exchange,
                "write_ok"@,
                14,
                "write failed"@,
            ),
        forall|exchange: ExchangeView|
            reply_view("cas"@, in_reply_to, exchange) == #[trigger] change_view(
                in_reply_to,
                exchange,
                "cas_ok"@,
                22,
                "cas failed"@,
            ),
{
    lemma_types_differ();
}

/// A read asks the gateway for its own key: on the messages and steps themselves, a read of a plain
/// string asks for that string, and a read of an integer for its numeral.
pub proof fn law_read_names_its_key(
    node: NodeView,
    msg: Message,
    step: NodeStep,
    text: String,
    n: i64,
)
    requires
        msg.body.msg_type@ == "read"@,
        step@ == node_step(node, msg@),
    ensures
        msg.body.key == Some(JsonValue::Text(text)) && is_plain(text@) ==> {
            &&& step matches NodeStep::Ask(ShimRequest::Get { url })
            &&& url@ == node.shim_url + "/kv/get/"@ + text@
        },
        msg.body.key == Some(JsonValue::Integer(n)) ==> {
            &&& step matches NodeStep::Ask(ShimRequest::Get { url })
            &&& url@ == node.shim_url + "/kv/get/"@ + integer_text(n as int)
        },
{
    lemma_types_differ();
    if is_plain(text@) {
        law_plain_text_word_reads_back(text@);
    }
    law_integer_word_reads_back(n);
}

/// What a test writes it reads back, step by step: where the store applies the put that the node
/// asks for about a write, and then the get that it asks for about a read of the same key, the
/// reply to the read has the value that was written, if that is an integer or a plain string that
/// does not read as one.
pub proof fn law_read_after_write_on_the_steps(
    node: NodeView,
    store: Map<Seq<char>, Seq<char>>,
    write: MessageView,
    read: MessageView,
    put_key: String,
    put_value: String,
    get_key: String,
)
    requires
        write.body.msg_type == "write"@,
        write.body.key is Some,
        write.body.value is Some,
        read.body.msg_type == "read"@,
        read.body.key == write.body.key,
        node_step(node, write) == NodeStepView::Ask(
            ShimRequestView::Put {
                url: node.shim_url + "/kv/put"@,
                key: put_key@,
                value: put_value@,
            },
        ),
        node_step(node, read) == NodeStepView::Ask(
            ShimRequestView::Get { url: node.shim_url + "/kv/get/"@ + get_key@ },
        ),
        match write.body.value->0 {
            JsonView::Integer(_) => true,
            JsonView::Text(s) => is_plain(s) && i64_value(s) is None,
            JsonView::Other(_) => false,
        },
    ensures
        answer(
            applied(store, KVCommand::Put(put_key, put_value)),
            KVCommand::Get(get_key),
        ) matches Some(Some(found)) && {
            let reply = reply_view(
                read.body.msg_type,
                read.body.msg_id,
                ExchangeView::Answered { ok: true, value: Some(found), error: None },
            );
            &&& reply.msg_type == "read_ok"@
            &&& reply.in_reply_to == read.body.msg_id
            &&& reply.value == write.body.value
        },
{
    let key = write.body.key->0;
    law_read_asks_for_the_key_that_a_write_stores_under(
        node,
        read,
        write,
        key,
        write.body.value->0,
    );
    let base = node.shim_url + "/kv/get/"@;
    assert((base + get_key@).skip(base.len() as int) =~= get_key@);
    assert((base + put_key@).skip(base.len() as int) =~= put_key@);
    law_written_value_is_read_back(
        store,
        key,
        write.body.value->0,
        put_key,
        put_value,
        get_key,
        read.body.msg_id,
    );
}

} // verus!
