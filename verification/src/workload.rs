//! A workload for the gateway: random reads and writes, and what comes of each.
use crate::kv::text_option;
use crate::maelstrom::{
    get_request, make_get_request, make_put_request, put_request, Exchange, ExchangeView,
    ShimRequest, ShimRequestView,
};
use crate::text::{decimal, decimal_text};
use rand::Rng;
use vstd::prelude::*;

verus! {

/// An operation on the store.
#[derive(Debug, Clone, PartialEq, Eq)]
pub enum Operation {
    /// Read a key.
    Read(String),
    /// Store a value under a key.
    Write(String, String),
}

/// What came of an operation.
#[derive(Debug, PartialEq, Eq)]
pub enum Outcome {
    /// The key was read, and has this value.
    ReadOk(String),
    /// The value was stored.
    WriteOk,
    /// The key was not found.
    NotFound,
    /// It is unknown whether the operation took place.
    Indeterminate,
    /// The operation failed; why.
    Failed(String),
}

/// The view of an operation.
pub enum OperationView {
    Read(Seq<char>),
    Write(Seq<char>, Seq<char>),
}

impl View for Operation {
    type V = OperationView;

    open spec fn view(&self) -> OperationView {
        match *self {
            Operation::Read(key) => OperationView::Read(key@),
            Operation::Write(key, value) => OperationView::Write(key@, value@),
        }
    }
}

/// The view of an outcome.
pub enum OutcomeView {
    ReadOk(Seq<char>),
    WriteOk,
    NotFound,
    Indeterminate,
    Failed(Seq<char>),
}

impl View for Outcome {
    type V = OutcomeView;

    open spec fn view(&self) -> OutcomeView {
        match *self {
            Outcome::ReadOk(value) => OutcomeView::ReadOk(value@),
            Outcome::WriteOk => OutcomeView::WriteOk,
            Outcome::NotFound => OutcomeView::NotFound,
            Outcome::Indeterminate => OutcomeView::Indeterminate,
            Outcome::Failed(e) => OutcomeView::Failed(e@),
        }
    }
}

/// The operation for three numbers that were drawn: of ten values of `choice` three are for a
/// read, the others for a write.
pub open spec fn drawn_operation(key: u32, value: u32, choice: u32) -> OperationView {
    if choice <= 2 {
        OperationView::Read(decimal(key as nat))
    } else {
        OperationView::Write(decimal(key as nat), decimal(value as nat))
    }
}

/// Calls `gen_range` on the generator that `rand::thread_rng` gives. The claim: the number lies in
/// the range, the ends included.
#[verifier::external_body]
fn draw(low: u32, high: u32) -> (n: u32)
    requires
        low <= high,
    ensures
        low <= n <= high,
{
    rand::thread_rng().gen_range(low..=high)
}

/// Makes the operation for three numbers that were drawn.
pub fn operation_from_draws(key: u32, value: u32, choice: u32) -> (op: Operation)
    ensures
        op@ == drawn_operation(key, value, choice),
{
    let key = decimal_text(key as u64);
    if choice <= 2 {
        Operation::Read(key)
    } else {
        Operation::Write(key, decimal_text(value as u64))
    }
}

/// Makes a random operation: on one of five keys, with one of a hundred values.
pub fn generate_op() -> (op: Operation)
    ensures
        exists|key: u32, value: u32, choice: u32|
            1 <= key <= 5 && 1 <= value <= 100 && choice < 10 && op@ == #[trigger] drawn_operation(
                key,
                value,
                choice,
            ),
{
    let key: u32 = draw(1, 5);
    let value: u32 = draw(1, 100);
    let choice: u32 = draw(0, 9);
    operation_from_draws(key, value, choice)
}

/// The request that an operation makes.
pub open spec fn request_view(op: OperationView, shim_url: Seq<char>) -> ShimRequestView {
    match op {
        OperationView::Read(key) => get_request(shim_url, key),
        OperationView::Write(key, value) => put_request(shim_url, key, value),
    }
}

/// An optional text, which is empty where there is none.
pub open spec fn or_empty(s: Option<Seq<char>>) -> Seq<char> {
    match s {
        Some(t) => t,
        None => Seq::empty(),
    }
}

/// What came of an operation, by what came of its request.
pub open spec fn outcome_view(op: OperationView, exchange: ExchangeView) -> OutcomeView {
    match exchange {
        ExchangeView::Answered { ok, value, error } => match op {
            OperationView::Read(_) => if ok {
                OutcomeView::ReadOk(or_empty(value))
            } else {
                OutcomeView::NotFound
            },
            OperationView::Write(_, _) => if ok {
                OutcomeView::WriteOk
            } else {
                OutcomeView::Failed(or_empty(error))
            },
        },
        ExchangeView::BadAnswer(e) => OutcomeView::Failed(e),
        ExchangeView::SendFailed(_) => OutcomeView::Indeterminate,
        ExchangeView::TimedOut => OutcomeView::Indeterminate,
    }
}

/// Makes the request for an operation.
pub fn op_request(op: &Operation, shim_url: &str) -> (r: ShimRequest)
    ensures
        r@ == request_view(op@, shim_url@),
{
    match op {
        Operation::Read(key) => make_get_request(shim_url, key.as_str()),
        Operation::Write(key, value) => make_put_request(shim_url, key.clone(), value.clone()),
    }
}

/// A text, or the empty one.
fn text_or_empty(s: Option<String>) -> (r: String)
    ensures
        r@ == or_empty(text_option(s)),
{
    match s {
        Some(t) => t,
        None => String::new(),
    }
}

/// Says what came of an operation.
pub fn op_outcome(op: &Operation, exchange: Exchange) -> (r: Outcome)
    ensures
        r@ == outcome_view(op@, exchange@),
{
    match exchange {
        Exchange::Answered(s) => match op {
            Operation::Read(_) => {
                if s.ok {
                    Outcome::ReadOk(text_or_empty(s.value))
                } else {
                    Outcome::NotFound
                }
            },
            Operation::Write(_, _) => {
                if s.ok {
                    Outcome::WriteOk
                } else {
                    Outcome::Failed(text_or_empty(s.error))
                }
            },
        },
        Exchange::BadAnswer(e) => Outcome::Failed(e),
        Exchange::SendFailed(_) => Outcome::Indeterminate,
        Exchange::TimedOut => Outcome::Indeterminate,
    }
}

/// An outcome is indeterminate exactly where no answer came.
pub proof fn law_indeterminate_means_unanswered(op: OperationView, exchange: ExchangeView)
    ensures
        outcome_view(op, exchange) is Indeterminate <==> (exchange is SendFailed
            || exchange is TimedOut),
{
}

/// The views of operations and outcomes tell their cases apart and keep the characters of each
/// text.
pub proof fn law_views_keep_the_texts(key: String, value: String)
    ensures
        Operation::Read(key)@ == OperationView::Read(key@),
        Operation::Write(key, value)@ == OperationView::Write(key@, value@),
        Outcome::ReadOk(value)@ == OutcomeView::ReadOk(value@),
        Outcome::WriteOk@ is WriteOk,
        Outcome::NotFound@ is NotFound,
        Outcome::Indeterminate@ is Indeterminate,
        Outcome::Failed(value)@ == OutcomeView::Failed(value@),
{
}

/// The operation is on the key that was drawn: a read for the choices 0, 1 and 2, and for every
/// other choice a write of the value that was drawn.
pub proof fn law_draws_decide_the_operation(key: u32, value: u32, choice: u32)
    ensures
        choice <= 2 ==> drawn_operation(key, value, choice) == OperationView::Read(
            decimal(key as nat),
        ),
        choice > 2 ==> drawn_operation(key, value, choice) == OperationView::Write(
            decimal(key as nat),
            decimal(value as nat),
        ),
{
}

/// A read asks the gateway for the key, a write to store the value under the key: a read and a
/// write of one key speak of the same key.
pub proof fn law_operation_asks_for_its_key(
    shim_url: Seq<char>,
    key: Seq<char>,
    value: Seq<char>,
)
    ensures
        request_view(OperationView::Read(key), shim_url) == (ShimRequestView::Get {
            url: shim_url + "/kv/get/"@ + key,
        }),
        request_view(OperationView::Write(key, value), shim_url) == (ShimRequestView::Put {
            url: shim_url + "/kv/put"@,
            key,
            value,
        }),
{
}

/// A read that the gateway took gives the value of the answer, or the empty text where it has none,
/// and one that it refused finds nothing. A write that the gateway took is done, and one that it
/// refused failed for the reason given, or for none.
pub proof fn law_answer_decides_the_outcome(
    key: Seq<char>,
    written: Seq<char>,
    value: Option<Seq<char>>,
    error: Option<Seq<char>>,
    said: Seq<char>,
)
    ensures
        ({
            let read = OperationView::Read(key);
            let write = OperationView::Write(key, written);
            &&& outcome_view(
                read,
                ExchangeView::Answered { ok: true, value: Some(said), error },
            ) == OutcomeView::ReadOk(said)
            &&& outcome_view(read, ExchangeView::Answered { ok: true, value: None, error })
                == OutcomeView::ReadOk(Seq::<char>::empty())
            &&& outcome_view(read, ExchangeView::Answered { ok: false, value, error }) is NotFound
            &&& outcome_view(write, ExchangeView::Answered { ok: true, value, error }) is WriteOk
            &&& outcome_view(
                write,
                ExchangeView::Answered { ok: false, value, error: Some(said) },
            ) == OutcomeView::Failed(said)
            &&& outcome_view(write, ExchangeView::Answered { ok: false, value, error: None })
                == OutcomeView::Failed(Seq::<char>::empty())
        }),
{
}

/// Whatever the operation, an answer that was not understood is a failure for the reason given.
pub proof fn law_bad_answer_is_a_failure(op: OperationView, why: Seq<char>)
    ensures
        outcome_view(op, ExchangeView::BadAnswer(why)) == OutcomeView::Failed(why),
{
}

} // verus!
