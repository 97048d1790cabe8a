//! The gateway's side of a request: it numbers commands, hands each reply to the request that
//! waits for it, and says what the HTTP client is told.
use crate::kv::{answered, ClientMessage, CommandId, KVCommand, ServerMessage};
use std::collections::HashMap;
use vstd::prelude::*;

verus! {

broadcast use vstd::std_specs::hash::group_hash_axioms;

/// The HTTP status of a failure inside the gateway.
pub const INTERNAL_SERVER_ERROR: u16 = 500;

/// The HTTP status where the way to the server is closed.
pub const SERVICE_UNAVAILABLE: u16 = 503;

/// The HTTP status where the server did not answer in time.
pub const GATEWAY_TIMEOUT: u16 = 504;

/// The JSON object that an HTTP client is sent. It has the member `ok`, and the others where they
/// are `Some`; a `value` of `Some(None)` is written as `null`.
#[derive(Debug, PartialEq, Eq)]
pub struct ReplyBody {
    pub ok: bool,
    pub cmd_id: Option<CommandId>,
    pub value: Option<Option<String>>,
    pub error: Option<String>,
}

/// A refusal: the HTTP status, and what the client is sent with it.
#[derive(Debug, PartialEq, Eq)]
pub struct ApiError {
    pub status: u16,
    pub body: ReplyBody,
}

/// A request to store a value under a key.
pub struct PutRequest {
    pub key: String,
    pub value: String,
}

/// A request to remove a key.
pub struct DeleteRequest {
    pub key: String,
}

/// How the wait for a reply ended.
pub enum SubmitOutcome {
    /// The command could not be handed to the connection.
    SendFailed,
    /// The reply came.
    Replied(ServerMessage),
    /// The connection was lost while the request waited.
    ChannelClosed,
    /// No reply came in time.
    TimedOut,
}

/// What the server's connection gives next.
pub enum Incoming {
    Message(ServerMessage),
    /// Something that is no message.
    Unreadable,
    /// Nothing more: the connection was lost.
    End,
}

/// What to do with what the server's connection gave.
#[derive(Debug, PartialEq, Eq)]
pub enum ReplyAction<T> {
    /// Hand the message to the request that waits for it, and go on reading.
    HandOver(T, ServerMessage),
    /// Nobody gets it; go on reading.
    Ignore,
    /// Stop reading.
    Stop,
}

/// Whether `e` is the refusal with this status and this message.
pub open spec fn is_api_error(e: ApiError, status: u16, message: Seq<char>) -> bool {
    &&& e.status == status
    &&& !e.body.ok
    &&& e.body.cmd_id is None
    &&& e.body.value is None
    &&& e.body.error matches Some(text)
    &&& text@ == message
}

/// A refusal with a status and a message.
pub fn api_error(status: u16, message: &str) -> (e: ApiError)
    ensures
        is_api_error(e, status, message@),
{
    ApiError {
        status,
        body: ReplyBody { ok: false, cmd_id: None, value: None, error: Some(message.to_owned()) },
    }
}

/// The command that a reply is for. A start signal is no reply.
pub fn command_id_from_response(msg: ServerMessage) -> (r: Result<CommandId, ApiError>)
    ensures
        match r {
            Ok(cmd_id) => answered(msg) == Some(cmd_id),
            Err(e) => answered(msg) is None && is_api_error(
                e,
                INTERNAL_SERVER_ERROR,
                "Unexpected start signal as command response"@,
            ),
        },
{
    match msg {
        ServerMessage::Write(cmd_id) => Ok(cmd_id),
        ServerMessage::Read(cmd_id, _) => Ok(cmd_id),
        ServerMessage::StartSignal(_) => Err(
            api_error(INTERNAL_SERVER_ERROR, "Unexpected start signal as command response"),
        ),
    }
}

/// The command of a request to store a value.
pub fn put_command(request: PutRequest) -> (c: KVCommand)
    ensures
        c == KVCommand::Put(request.key, request.value),
{
    KVCommand::Put(request.key, request.value)
}

/// The command of a request to remove a key.
pub fn delete_command(request: DeleteRequest) -> (c: KVCommand)
    ensures
        c == KVCommand::Delete(request.key),
{
    KVCommand::Delete(request.key)
}

/// What the client of a put or a delete is told once the wait for the reply is over.
pub fn write_reply(response: Result<ServerMessage, ApiError>) -> (r: Result<ReplyBody, ApiError>)
    ensures
        match response {
            Ok(msg) => match answered(msg) {
                Some(cmd_id) => r == Ok::<ReplyBody, ApiError>(
                    (ReplyBody { ok: true, cmd_id: Some(cmd_id), value: None, error: None }),
                ),
                None => r is Err && is_api_error(
                    r->Err_0,
                    INTERNAL_SERVER_ERROR,
                    "Unexpected start signal as command response"@,
                ),
            },
            Err(e) => r == Err::<ReplyBody, ApiError>(e),
        },
{
    match response {
        Ok(msg) => match command_id_from_response(msg) {
            Ok(cmd_id) => Ok(
                ReplyBody { ok: true, cmd_id: Some(cmd_id), value: None, error: None },
            ),
            Err(e) => Err(e),
        },
        Err(e) => Err(e),
    }
}

/// What the client of a get is told once the wait for the reply is over. A reply to a read has a
/// value, `null` where the key has none; a reply to a write has no value.
pub fn read_reply(response: Result<ServerMessage, ApiError>) -> (r: Result<ReplyBody, ApiError>)
    ensures
        match response {
            Ok(ServerMessage::Read(cmd_id, value)) => r == Ok::<ReplyBody, ApiError>(
                (ReplyBody { ok: true, cmd_id: Some(cmd_id), value: Some(value), error: None }),
            ),
            Ok(ServerMessage::Write(cmd_id)) => r == Ok::<ReplyBody, ApiError>(
                (ReplyBody { ok: true, cmd_id: Some(cmd_id), value: None, error: None }),
            ),
            Ok(ServerMessage::StartSignal(_)) => r is Err && is_api_error(
                r->Err_0,
                INTERNAL_SERVER_ERROR,
                "Unexpected start signal as command response"@,
            ),
            Err(e) => r == Err::<ReplyBody, ApiError>(e),
        },
{
    match response {
        Ok(ServerMessage::Read(cmd_id, value)) => Ok(
            ReplyBody { ok: true, cmd_id: Some(cmd_id), value: Some(value), error: None },
        ),
        Ok(ServerMessage::Write(cmd_id)) => Ok(
            ReplyBody { ok: true, cmd_id: Some(cmd_id), value: None, error: None },
        ),
        Ok(ServerMessage::StartSignal(_)) => Err(
            api_error(INTERNAL_SERVER_ERROR, "Unexpected start signal as command response"),
        ),
        Err(e) => Err(e),
    }
}

/// What a gateway knows of its requests: the number of the next command, and who waits for the
/// reply to which command.
#[verifier::ext_equal]
pub struct RequestsView<T> {
    pub next_id: CommandId,
    pub pending: Map<CommandId, T>,
}

/// The command number behind `id`. The numbers start over at zero behind the last.
pub open spec fn id_after(id: CommandId) -> CommandId {
    if id == usize::MAX {
        0
    } else {
        (id + 1) as usize
    }
}

impl<T> RequestsView<T> {
    /// After a command was numbered for a request that waits.
    pub open spec fn submitted(self, waiter: T) -> RequestsView<T> {
        RequestsView {
            next_id: id_after(self.next_id),
            pending: self.pending.insert(self.next_id, waiter),
        }
    }

    /// After the request for a command stopped waiting.
    pub open spec fn dropped(self, cmd_id: CommandId) -> RequestsView<T> {
        RequestsView { pending: self.pending.remove(cmd_id), ..self }
    }

    /// After a message from the server.
    pub open spec fn delivered(self, msg: ServerMessage) -> RequestsView<T> {
        match answered(msg) {
            Some(cmd_id) => self.dropped(cmd_id),
            None => self,
        }
    }

    /// Who gets a message from the server.
    pub open spec fn recipient(self, msg: ServerMessage) -> Option<T> {
        match answered(msg) {
            Some(cmd_id) => if self.pending.contains_key(cmd_id) {
                Some(self.pending[cmd_id])
            } else {
                None
            },
            None => None,
        }
    }

    /// After the connection was lost.
    pub open spec fn closed(self) -> RequestsView<T> {
        RequestsView { pending: Map::empty(), ..self }
    }

    /// After the connection gave something.
    pub open spec fn received(self, item: Incoming) -> RequestsView<T> {
        match item {
            Incoming::Message(msg) => self.delivered(msg),
            Incoming::Unreadable => self,
            Incoming::End => self.closed(),
        }
    }

    /// What to do with what the connection gave.
    pub open spec fn reply_action(self, item: Incoming) -> ReplyAction<T> {
        match item {
            Incoming::Message(msg) => match self.recipient(msg) {
                Some(waiter) => ReplyAction::HandOver(waiter, msg),
                None => ReplyAction::Ignore,
            },
            Incoming::Unreadable => ReplyAction::Ignore,
            Incoming::End => ReplyAction::Stop,
        }
    }

    /// After the wait for the reply to a command ended.
    pub open spec fn finished(self, cmd_id: CommandId, outcome: SubmitOutcome) -> RequestsView<T> {
        if outcome is Replied {
            self
        } else {
            self.dropped(cmd_id)
        }
    }
}

/// The requests of a gateway. `T` is whatever wakes a request that waits.
#[verifier::reject_recursive_types(T)]
pub struct Requests<T> {
    next_id: CommandId,
    pending: HashMap<CommandId, T>,
}

impl<T> View for Requests<T> {
    type V = RequestsView<T>;

    closed spec fn view(&self) -> RequestsView<T> {
        RequestsView { next_id: self.next_id, pending: self.pending@ }
    }
}

impl<T> Requests<T> {
    /// No request yet; the first command will have the number zero.
    pub fn new() -> (r: Requests<T>)
        ensures
            r@ == (RequestsView { next_id: 0, pending: Map::<CommandId, T>::empty() }),
    {
        Requests { next_id: 0, pending: HashMap::new() }
    }

    /// Numbers a command and notes who waits for its reply. The message is to be sent.
    pub fn submit_command(&mut self, command: KVCommand, waiter: T) -> (msg: ClientMessage)
        ensures
            msg == ClientMessage::Append(old(self)@.next_id, command),
            final(self)@ == old(self)@.submitted(waiter),
    {
        let cmd_id: usize = self.next_id;
        self.next_id = if cmd_id == usize::MAX {
            0
        } else {
            cmd_id + 1
        };
        self.pending.insert(cmd_id, waiter);
        ClientMessage::Append(cmd_id, command)
    }

    /// Takes in a message from the server: who is to be handed it, if somebody waits for it.
    pub fn deliver(&mut self, msg: ServerMessage) -> (r: Option<(T, ServerMessage)>)
        ensures
            final(self)@ == old(self)@.delivered(msg),
            r == (match old(self)@.recipient(msg) {
                Some(waiter) => Some((waiter, msg)),
                None => None,
            }),
    {
        let cmd_id: usize = match &msg {
            ServerMessage::Write(cmd_id) => *cmd_id,
            ServerMessage::Read(cmd_id, _) => *cmd_id,
            ServerMessage::StartSignal(_) => return None,
        };
        let removed = self.pending.remove(&cmd_id);
        assert(self@.pending =~= old(self)@.pending.remove(cmd_id));
        match removed {
            Some(waiter) => Some((waiter, msg)),
            None => None,
        }
    }

    /// The connection was lost: nobody waits any more.
    pub fn close(&mut self)
        ensures
            final(self)@ == old(self)@.closed(),
    {
        self.pending.clear();
        assert(self@.pending =~= Map::<CommandId, T>::empty());
    }

    /// Takes in what the server's connection gave. What is no message is passed over, and at the
    /// end of the connection nobody waits any more.
    pub fn receive(&mut self, item: Incoming) -> (a: ReplyAction<T>)
        ensures
            final(self)@ == old(self)@.received(item),
            a == old(self)@.reply_action(item),
    {
        match item {
            Incoming::Message(msg) => match self.deliver(msg) {
                Some((waiter, msg)) => ReplyAction::HandOver(waiter, msg),
                None => ReplyAction::Ignore,
            },
            Incoming::Unreadable => ReplyAction::Ignore,
            Incoming::End => {
                self.close();
                ReplyAction::Stop
            },
        }
    }

    /// Ends the wait for the reply to a command: the reply, or why there is none.
    pub fn finish_command(&mut self, cmd_id: CommandId, outcome: SubmitOutcome) -> (r: Result<
        ServerMessage,
        ApiError,
    >)
        ensures
            final(self)@ == old(self)@.finished(cmd_id, outcome),
            match outcome {
                SubmitOutcome::Replied(msg) => r == Ok::<ServerMessage, ApiError>(msg),
                SubmitOutcome::SendFailed => r is Err && is_api_error(
                    r->Err_0,
                    SERVICE_UNAVAILABLE,
                    "TCP sender unavailable"@,
                ),
                SubmitOutcome::ChannelClosed => r is Err && is_api_error(
                    r->Err_0,
                    INTERNAL_SERVER_ERROR,
                    "Response channel closed"@,
                ),
                SubmitOutcome::TimedOut => r is Err && is_api_error(
                    r->Err_0,
                    GATEWAY_TIMEOUT,
                    "Server response timeout"@,
                ),
            },
    {
        let e = match outcome {
            SubmitOutcome::Replied(msg) => return Ok(msg),
            SubmitOutcome::SendFailed => api_error(SERVICE_UNAVAILABLE, "TCP sender unavailable"),
            SubmitOutcome::ChannelClosed => api_error(
                INTERNAL_SERVER_ERROR,
                "Response channel closed",
            ),
            SubmitOutcome::TimedOut => api_error(GATEWAY_TIMEOUT, "Server response timeout"),
        };
        let _ = self.pending.remove(&cmd_id);
        assert(self@.pending =~= old(self)@.pending.remove(cmd_id));
        Err(e)
    }
}

/// Something that happens to the requests of a gateway.
pub enum RequestEvent<T> {
    /// A command was numbered for a request that waits.
    Submitted(T),
    /// The server's connection gave something, or was lost.
    Received(Incoming),
    /// The wait for the reply to a command ended.
    Finished(CommandId, SubmitOutcome),
}

/// After a run of events.
pub open spec fn after_events<T>(v: RequestsView<T>, events: Seq<RequestEvent<T>>) -> RequestsView<T>
    decreases events.len(),
{
    if events.len() == 0 {
        v
    } else {
        let before = after_events(v, events.drop_last());
        match events.last() {
            RequestEvent::Submitted(waiter) => before.submitted(waiter),
            RequestEvent::Received(item) => before.received(item),
            RequestEvent::Finished(cmd_id, outcome) => before.finished(cmd_id, outcome),
        }
    }
}

/// Whether an event ends the wait for the reply to a command.
pub open spec fn ends_wait<T>(event: RequestEvent<T>, cmd_id: CommandId) -> bool {
    match event {
        RequestEvent::Submitted(_) => false,
        RequestEvent::Received(Incoming::Message(msg)) => answered(msg) == Some(cmd_id),
        RequestEvent::Received(Incoming::Unreadable) => false,
        RequestEvent::Received(Incoming::End) => true,
        RequestEvent::Finished(id, outcome) => id == cmd_id && !(outcome is Replied),
    }
}

/// How many numbers have been given out from `from` on, where the next one is `next`.
spec fn ids_used(from: CommandId, next: CommandId) -> int {
    if next > from {
        next - from
    } else {
        next + usize::MAX + 1 - from
    }
}

/// Fewer numbers are given out in a run of events than there are events.
proof fn lemma_ids_used<T>(v: RequestsView<T>, waiter: T, events: Seq<RequestEvent<T>>)
    requires
        events.len() < usize::MAX,
    ensures
        ids_used(v.next_id, after_events(v.submitted(waiter), events).next_id) <= events.len() + 1,
    decreases events.len(),
{
    if events.len() > 0 {
        lemma_ids_used(v, waiter, events.drop_last());
    }
}

/// A request waits through every event that is not about its command.
proof fn lemma_still_waiting<T>(v: RequestsView<T>, waiter: T, events: Seq<RequestEvent<T>>)
    requires
        events.len() < usize::MAX,
        forall|i: int| 0 <= i < events.len() ==> !ends_wait(#[trigger] events[i], v.next_id),
    ensures
        ({
            let after = after_events(v.submitted(waiter), events);
            &&& after.pending.contains_key(v.next_id)
            &&& after.pending[v.next_id] == waiter
        }),
    decreases events.len(),
{
    if events.len() > 0 {
        let front = events.drop_last();
        assert forall|i: int| 0 <= i < front.len() implies !ends_wait(
            #[trigger] front[i],
            v.next_id,
        ) by {
            assert(front[i] == events[i]);
        }
        lemma_still_waiting(v, waiter, front);
        lemma_ids_used(v, waiter, front);
        assert(!ends_wait(events[events.len() - 1], v.next_id));
    }
}

/// A run of events may be cut in two.
proof fn lemma_after_events_cut<T>(v: RequestsView<T>, events: Seq<RequestEvent<T>>, i: int)
    requires
        0 <= i <= events.len(),
    ensures
        after_events(v, events) == after_events(after_events(v, events.take(i)), events.skip(i)),
    decreases events.len(),
{
    if i == events.len() {
        assert(events.take(i) =~= events);
    } else {
        let front = events.drop_last();
        lemma_after_events_cut(v, front, i);
        assert(front.take(i) =~= events.take(i));
        assert(events.skip(i).drop_last() =~= front.skip(i));
        assert(events.skip(i).last() == events.last());
    }
}

/// The number that the command at place `i` of a run of events is given, if it is submitted there.
pub open spec fn number_at<T>(v: RequestsView<T>, events: Seq<RequestEvent<T>>, i: int) -> CommandId {
    after_events(v, events.take(i)).next_id
}

/// What is handed over as the reply to a command in a run of events, and to whom.
pub open spec fn handed_over<T>(
    v: RequestsView<T>,
    events: Seq<RequestEvent<T>>,
    cmd_id: CommandId,
) -> Seq<(T, ServerMessage)>
    decreases events.len(),
{
    if events.len() == 0 {
        Seq::empty()
    } else {
        let before = handed_over(v, events.drop_last(), cmd_id);
        match events.last() {
            RequestEvent::Received(item) => match after_events(v, events.drop_last()).reply_action(
                item,
            ) {
                ReplyAction::HandOver(waiter, msg) => if answered(msg) == Some(cmd_id) {
                    before.push((waiter, msg))
                } else {
                    before
                },
                _ => before,
            },
            _ => before,
        }
    }
}

/// While nothing ends the wait for the reply to a command, none is handed over.
proof fn lemma_nothing_handed_over<T>(
    v: RequestsView<T>,
    events: Seq<RequestEvent<T>>,
    cmd_id: CommandId,
)
    requires
        forall|i: int| 0 <= i < events.len() ==> !ends_wait(#[trigger] events[i], cmd_id),
    ensures
        handed_over(v, events, cmd_id) == Seq::<(T, ServerMessage)>::empty(),
    decreases events.len(),
{
    if events.len() > 0 {
        let front = events.drop_last();
        assert forall|i: int| 0 <= i < front.len() implies !ends_wait(
            #[trigger] front[i],
            cmd_id,
        ) by {
            assert(front[i] == events[i]);
        }
        lemma_nothing_handed_over(v, front, cmd_id);
        assert(!ends_wait(events[events.len() - 1], cmd_id));
    }
}

/// How many commands are submitted in a run of events.
pub open spec fn submissions<T>(events: Seq<RequestEvent<T>>) -> nat
    decreases events.len(),
{
    if events.len() == 0 {
        0
    } else if events.last() is Submitted {
        submissions(events.drop_last()) + 1
    } else {
        submissions(events.drop_last())
    }
}

/// The reply to a command reaches the request that submitted it, whatever happened to other
/// requests in between.
pub proof fn law_reply_reaches_its_request<T>(
    v: RequestsView<T>,
    waiter: T,
    between: Seq<RequestEvent<T>>,
    reply: ServerMessage,
)
    requires
        answered(reply) == Some(v.next_id),
        between.len() < usize::MAX,
        forall|i: int| 0 <= i < between.len() ==> !ends_wait(#[trigger] between[i], v.next_id),
    ensures
        after_events(v.submitted(waiter), between).recipient(reply) == Some(waiter),
{
    lemma_still_waiting(v, waiter, between);
}

/// A request gets at most one message: where a reply to its command is what ends its wait, that
/// reply, and otherwise none; whatever happens to other requests, whatever else the connection
/// gives, and whether or not it is lost.
pub proof fn law_request_gets_its_first_reply<T>(
    v: RequestsView<T>,
    waiter: T,
    events: Seq<RequestEvent<T>>,
    k: int,
)
    requires
        events.len() < usize::MAX,
        0 <= k < events.len(),
        ends_wait(events[k], v.next_id),
        forall|i: int| 0 <= i < k ==> !ends_wait(#[trigger] events[i], v.next_id),
    ensures
        handed_over(v.submitted(waiter), events, v.next_id) == (match events[k] {
            RequestEvent::Received(Incoming::Message(reply)) => seq![(waiter, reply)],
            _ => Seq::<(T, ServerMessage)>::empty(),
        }),
        !after_events(v.submitted(waiter), events).pending.contains_key(v.next_id),
    decreases events.len(),
{
    let front = events.drop_last();
    if k == events.len() - 1 {
        assert forall|i: int| 0 <= i < front.len() implies !ends_wait(
            #[trigger] front[i],
            v.next_id,
        ) by {
            assert(front[i] == events[i]);
        }
        lemma_nothing_handed_over(v.submitted(waiter), front, v.next_id);
        lemma_still_waiting(v, waiter, front);
    } else {
        assert forall|i: int| 0 <= i < k implies !ends_wait(#[trigger] front[i], v.next_id) by {
            assert(front[i] == events[i]);
        }
        assert(front[k] == events[k]);
        law_request_gets_its_first_reply(v, waiter, front, k);
        lemma_ids_used(v, waiter, front);
    }
}

/// What is no message, a start signal, and a reply for which nobody waits change nothing, are
/// handed to nobody, and do not end the reading: what comes after them is handled as if they had
/// not come.
pub proof fn law_ignored_item_changes_nothing<T>(
    v: RequestsView<T>,
    item: Incoming,
    later: Seq<RequestEvent<T>>,
    cmd_id: CommandId,
)
    requires
        item matches Incoming::Message(msg) ==> v.recipient(msg) is None,
        !(item is End),
    ensures
        v.reply_action(item) is Ignore,
        v.received(item) == v,
        after_events(v.received(item), later) == after_events(v, later),
        handed_over(v.received(item), later, cmd_id) == handed_over(v, later, cmd_id),
{
    if let Incoming::Message(msg) = item {
        assert(v.delivered(msg).pending =~= v.pending);
    }
}

/// The reading ends exactly at the end of the connection.
pub proof fn law_reading_ends_with_the_connection<T>(v: RequestsView<T>, item: Incoming)
    ensures
        v.reply_action(item) is Stop <==> item is End,
{
}

/// A message is handed out once: a second message for the same command finds nobody.
pub proof fn law_reply_is_delivered_once<T>(
    v: RequestsView<T>,
    first: ServerMessage,
    second: ServerMessage,
)
    requires
        answered(first) is Some,
        answered(second) == answered(first),
    ensures
        v.delivered(first).recipient(second) is None,
        v.delivered(first).delivered(second) == v.delivered(first),
{
    assert(v.delivered(first).delivered(second).pending =~= v.delivered(first).pending);
}

/// A reply that comes after its request gave up finds nobody, and so does every reply after the
/// connection was lost.
pub proof fn law_late_reply_is_dropped<T>(
    v: RequestsView<T>,
    cmd_id: CommandId,
    outcome: SubmitOutcome,
    reply: ServerMessage,
)
    ensures
        !(outcome is Replied) && answered(reply) == Some(cmd_id) ==> v.finished(
            cmd_id,
            outcome,
        ).recipient(reply) is None,
        v.closed().recipient(reply) is None,
{
}

/// No request is left behind: however the wait for the reply to a command ends, nobody waits for
/// that reply any more, and everybody else does as before.
pub proof fn law_no_request_is_left_behind<T>(
    v: RequestsView<T>,
    waiter: T,
    outcome: SubmitOutcome,
)
    requires
        outcome matches SubmitOutcome::Replied(msg) ==> answered(msg) == Some(v.next_id),
        !v.pending.contains_key(v.next_id),
    ensures
        ({
            let waiting = v.submitted(waiter);
            let woken = match outcome {
                SubmitOutcome::Replied(msg) => waiting.delivered(msg),
                _ => waiting,
            };
            woken.finished(v.next_id, outcome).pending == v.pending
        }),
{
    assert(v.pending.insert(v.next_id, waiter).remove(v.next_id) =~= v.pending);
}

/// A start signal is handed to nobody and changes nothing.
pub proof fn law_start_signal_is_ignored<T>(v: RequestsView<T>, time: i64)
    ensures
        v.recipient(ServerMessage::StartSignal(time)) is None,
        v.delivered(ServerMessage::StartSignal(time)) == v,
{
}

/// The end of one wait leaves every other request waiting as before.
pub proof fn law_other_requests_keep_waiting<T>(
    v: RequestsView<T>,
    cmd_id: CommandId,
    outcome: SubmitOutcome,
    msg: ServerMessage,
    other: CommandId,
)
    requires
        other != cmd_id,
        answered(msg) == Some(cmd_id),
    ensures
        v.finished(cmd_id, outcome).pending.contains_key(other) == v.pending.contains_key(other),
        v.pending.contains_key(other) ==> v.finished(cmd_id, outcome).pending[other]
            == v.pending[other],
        v.delivered(msg).pending.contains_key(other) == v.pending.contains_key(other),
        v.pending.contains_key(other) ==> v.delivered(msg).pending[other] == v.pending[other],
{
}

/// Commands are numbered one after the other, from whatever number is next, until the numbers
/// start over; whoever waits waited before, or was given one of these numbers.
pub proof fn law_commands_are_numbered_in_order<T>(
    v: RequestsView<T>,
    events: Seq<RequestEvent<T>>,
)
    requires
        v.next_id + submissions(events) <= usize::MAX,
    ensures
        after_events(v, events).next_id == v.next_id + submissions(events),
        forall|id: CommandId| #[trigger]
            after_events(v, events).pending.contains_key(id) ==> v.pending.contains_key(id)
                || v.next_id <= id < after_events(v, events).next_id,
    decreases events.len(),
{
    if events.len() > 0 {
        let front = events.drop_last();
        law_commands_are_numbered_in_order(v, front);
        assert forall|id: CommandId| #[trigger]
            after_events(v, events).pending.contains_key(id) implies v.pending.contains_key(id)
            || v.next_id <= id < after_events(v, events).next_id by {
            assert(after_events(v, front).pending.contains_key(id) || id == after_events(
                v,
                front,
            ).next_id);
        }
    }
}

/// No two commands have the same number, from whatever number is next and whatever else happens, a
/// lost connection too, in any run of events that is no longer than there are numbers; and each
/// request that nothing has ended waits under its own number.
pub proof fn law_command_ids_are_distinct<T>(
    v: RequestsView<T>,
    events: Seq<RequestEvent<T>>,
    i: int,
    j: int,
)
    requires
        events.len() <= usize::MAX,
        0 <= i < j < events.len(),
        events[i] is Submitted,
        events[j] is Submitted,
    ensures
        number_at(v, events, i) != number_at(v, events, j),
        (forall|k: int|
            i < k < events.len() ==> !ends_wait(#[trigger] events[k], number_at(v, events, i)))
            ==> {
            &&& after_events(v, events).pending.contains_key(number_at(v, events, i))
            &&& events[i] == RequestEvent::Submitted(
                after_events(v, events).pending[number_at(v, events, i)],
            )
        },
{
    let start = after_events(v, events.take(i));
    let waiter = events[i]->Submitted_0;
    let upto = events.take(i + 1);
    assert(upto.drop_last() =~= events.take(i));
    assert(after_events(v, upto) == start.submitted(waiter));
    let run = events.take(j);
    lemma_after_events_cut(v, run, i + 1);
    assert(run.take(i + 1) =~= upto);
    lemma_ids_used(start, waiter, run.skip(i + 1));
    lemma_after_events_cut(v, events, i + 1);
    let rest = events.skip(i + 1);
    if forall|k: int|
        i < k < events.len() ==> !ends_wait(#[trigger] events[k], number_at(v, events, i)) {
        assert forall|k: int| 0 <= k < rest.len() implies !ends_wait(
            #[trigger] rest[k],
            start.next_id,
        ) by {
            assert(rest[k] == events[k + i + 1]);
        }
        lemma_still_waiting(start, waiter, rest);
    }
}

/// A refusal is one with its status and its message, and with nothing else to tell.
pub proof fn law_refusal_has_status_and_message(e: ApiError, status: u16, message: Seq<char>)
    ensures
        is_api_error(e, status, message) ==> {
            &&& e.status == status
            &&& !e.body.ok
            &&& e.body.cmd_id is None
            &&& e.body.value is None
            &&& e.body.error is Some
            &&& e.body.error->0@ == message
        },
        e.status == status && !e.body.ok && e.body.cmd_id is None && e.body.value is None
            && e.body.error is Some && e.body.error->0@ == message ==> is_api_error(
            e,
            status,
            message,
        ),
{
}

/// A request waits under the number that its command was given, everybody else waits as before,
/// and the next command gets the number behind it: one higher, or zero behind the highest.
pub proof fn law_submission_waits_under_its_number<T>(v: RequestsView<T>, waiter: T)
    ensures
        v.submitted(waiter).pending == v.pending.insert(v.next_id, waiter),
        v.next_id < usize::MAX ==> v.submitted(waiter).next_id == v.next_id + 1,
        v.next_id == usize::MAX ==> v.submitted(waiter).next_id == 0,
{
}

/// Where a request waits under a number, the reply to the write or to the read with that number is
/// handed to that request, which then waits no more; everybody else waits as before.
pub proof fn law_reply_is_handed_to_who_waits_for_it<T>(
    v: RequestsView<T>,
    cmd_id: CommandId,
    value: Option<String>,
)
    requires
        v.pending.contains_key(cmd_id),
    ensures
        v.recipient(ServerMessage::Write(cmd_id)) == Some(v.pending[cmd_id]),
        v.recipient(ServerMessage::Read(cmd_id, value)) == Some(v.pending[cmd_id]),
        v.delivered(ServerMessage::Write(cmd_id)).pending == v.pending.remove(cmd_id),
        v.delivered(ServerMessage::Read(cmd_id, value)).pending == v.pending.remove(cmd_id),
        v.delivered(ServerMessage::Write(cmd_id)).next_id == v.next_id,
        v.delivered(ServerMessage::Read(cmd_id, value)).next_id == v.next_id,
{
}

/// Where nobody waits under a number, the reply to the write or to the read with that number is
/// handed to nobody and changes nothing.
pub proof fn law_unawaited_reply_is_handed_to_nobody<T>(
    v: RequestsView<T>,
    cmd_id: CommandId,
    value: Option<String>,
)
    requires
        !v.pending.contains_key(cmd_id),
    ensures
        v.recipient(ServerMessage::Write(cmd_id)) is None,
        v.recipient(ServerMessage::Read(cmd_id, value)) is None,
        v.delivered(ServerMessage::Write(cmd_id)) == v,
        v.delivered(ServerMessage::Read(cmd_id, value)) == v,
{
    assert(v.pending.remove(cmd_id) =~= v.pending);
}

/// A submitted command gets its own reply: the number that was next is the number whose reply
/// wakes the request, and no other number's does.
pub proof fn law_submitted_command_gets_its_own_reply<T>(
    v: RequestsView<T>,
    waiter: T,
    cmd_id: CommandId,
    value: Option<String>,
)
    ensures
        v.submitted(waiter).recipient(ServerMessage::Write(v.next_id)) == Some(waiter),
        v.submitted(waiter).recipient(ServerMessage::Read(v.next_id, value)) == Some(waiter),
        cmd_id != v.next_id ==> {
            &&& v.submitted(waiter).recipient(ServerMessage::Write(cmd_id)) == v.recipient(
                ServerMessage::Write(cmd_id),
            )
            &&& v.submitted(waiter).recipient(ServerMessage::Read(cmd_id, value)) == v.recipient(
                ServerMessage::Read(cmd_id, value),
            )
        },
{
}

/// A message that the connection gives is handed over as it came, to the request that waits under
/// its number; what is no message is passed over; the end leaves nobody waiting. The numbers go on
/// as before in every case.
pub proof fn law_received_item_is_handled<T>(
    v: RequestsView<T>,
    cmd_id: CommandId,
    value: Option<String>,
    item: Incoming,
)
    ensures
        v.pending.contains_key(cmd_id) ==> {
            &&& v.reply_action(Incoming::Message(ServerMessage::Write(cmd_id)))
                == ReplyAction::HandOver(v.pending[cmd_id], ServerMessage::Write(cmd_id))
            &&& v.reply_action(Incoming::Message(ServerMessage::Read(cmd_id, value)))
                == ReplyAction::HandOver(v.pending[cmd_id], ServerMessage::Read(cmd_id, value))
        },
        !v.pending.contains_key(cmd_id) ==> {
            &&& v.reply_action(Incoming::Message(ServerMessage::Write(cmd_id))) is Ignore
            &&& v.reply_action(Incoming::Message(ServerMessage::Read(cmd_id, value))) is Ignore
        },
        v.received(Incoming::Message(ServerMessage::Write(cmd_id))).pending == v.pending.remove(
            cmd_id,
        ),
        v.received(Incoming::Message(ServerMessage::Read(cmd_id, value))).pending
            == v.pending.remove(cmd_id),
        v.reply_action(Incoming::Unreadable) is Ignore,
        v.received(Incoming::Unreadable) == v,
        v.reply_action(Incoming::End) is Stop,
        v.received(Incoming::End).pending == Map::<CommandId, T>::empty(),
        v.received(item).next_id == v.next_id,
{
    assert(!v.pending.contains_key(cmd_id) ==> v.pending.remove(cmd_id) =~= v.pending);
}

/// When the connection is lost nobody waits any more; the numbers go on as before.
pub proof fn law_lost_connection_ends_every_wait<T>(v: RequestsView<T>, cmd_id: CommandId)
    ensures
        !v.closed().pending.contains_key(cmd_id),
        v.closed().next_id == v.next_id,
{
}

/// A wait that ends without a reply leaves nobody waiting under its number and everybody else as
/// before; one that ends with a reply changes nothing more. The numbers go on as before.
pub proof fn law_finished_wait_leaves_its_number<T>(
    v: RequestsView<T>,
    cmd_id: CommandId,
    reply: ServerMessage,
)
    ensures
        v.finished(cmd_id, SubmitOutcome::Replied(reply)) == v,
        forall|outcome: SubmitOutcome|
            !(outcome is Replied) ==> (#[trigger] v.finished(cmd_id, outcome)).pending
                == v.pending.remove(cmd_id),
        forall|outcome: SubmitOutcome|
            (#[trigger] v.finished(cmd_id, outcome)).next_id == v.next_id,
{
}

} // verus!
