//! The two tasks that serve a connection: one forwards what is read, one writes what is to be
//! sent.
use vstd::prelude::*;

verus! {

/// Who is at the other end of a connection.
#[derive(Clone, Copy, Debug, PartialEq, Eq, Structural)]
pub enum LinkKind {
    Peer,
    Client,
}

/// What to do with something that was read.
#[derive(Debug, PartialEq, Eq)]
pub enum ReadAction {
    /// Forward the message.
    Forward,
    /// Report that it could not be understood, and go on.
    Report,
    /// Leave it out, with the rest of what was read at one time.
    Skip,
}

/// What to do where a message could not be forwarded.
#[derive(Debug, PartialEq, Eq)]
pub enum ForwardFailure {
    /// Leave out the rest of what was read with it, and go on reading.
    SkipRest,
    /// Stop reading for good.
    Stop,
}

/// What to do with the next item of a chunk.
pub open spec fn read_action(skipping: bool, readable: bool) -> ReadAction {
    if skipping {
        ReadAction::Skip
    } else if readable {
        ReadAction::Forward
    } else {
        ReadAction::Report
    }
}

/// What the task that reads knows: who is at the other end, whether the rest of the chunk is left
/// out, and whether reading has stopped for good.
pub struct ReadView {
    pub kind: LinkKind,
    pub skipping: bool,
    pub stopped: bool,
}

impl ReadView {
    /// Before the first chunk.
    pub open spec fn started(kind: LinkKind) -> ReadView {
        ReadView { kind, skipping: false, stopped: false }
    }

    /// After a new chunk was read. Nothing is left out of it, unless reading has stopped.
    pub open spec fn chunk_begun(self) -> ReadView {
        ReadView { skipping: self.stopped, ..self }
    }

    /// After a message could not be forwarded. From a client, that stops the reading.
    pub open spec fn forward_failed(self) -> ReadView {
        ReadView { skipping: true, stopped: self.stopped || self.kind is Client, ..self }
    }
}

/// The task that reads. What has been read at one time, a chunk, is looked at item by item.
pub struct ReadLoop {
    kind: LinkKind,
    skipping: bool,
    stopped: bool,
}

impl View for ReadLoop {
    type V = ReadView;

    closed spec fn view(&self) -> ReadView {
        ReadView { kind: self.kind, skipping: self.skipping, stopped: self.stopped }
    }
}

impl ReadLoop {
    /// Before the first chunk.
    pub fn new(kind: LinkKind) -> (r: ReadLoop)
        ensures
            r@ == ReadView::started(kind),
    {
        ReadLoop { kind, skipping: false, stopped: false }
    }

    /// A new chunk was read.
    pub fn begin_chunk(&mut self)
        ensures
            final(self)@ == old(self)@.chunk_begun(),
    {
        self.skipping = self.stopped;
    }

    /// Decides on the next item of the chunk; `readable` says whether it is a message.
    pub fn item(&self, readable: bool) -> (a: ReadAction)
        ensures
            a == read_action(self@.skipping, readable),
    {
        if self.skipping {
            ReadAction::Skip
        } else if readable {
            ReadAction::Forward
        } else {
            ReadAction::Report
        }
    }

    /// The message could not be forwarded: nobody takes messages any more. From a peer, the rest
    /// of the chunk is left out; from a client, reading stops.
    pub fn forward_failed(&mut self) -> (f: ForwardFailure)
        ensures
            final(self)@ == old(self)@.forward_failed(),
            f == (match old(self)@.kind {
                LinkKind::Peer => ForwardFailure::SkipRest,
                LinkKind::Client => ForwardFailure::Stop,
            }),
    {
        self.skipping = true;
        match self.kind {
            LinkKind::Peer => ForwardFailure::SkipRest,
            LinkKind::Client => {
                self.stopped = true;
                ForwardFailure::Stop
            },
        }
    }
}

/// Something that happens to the task that reads. An item is a message where it is readable.
pub enum ReadEvent<T> {
    /// A new chunk was read.
    Chunk,
    /// The next item of the chunk is looked at.
    Item(Option<T>),
    /// The message that was looked at last could not be forwarded.
    ForwardFailed,
}

/// What the task that reads knows after a run of events.
pub open spec fn read_run<T>(v: ReadView, events: Seq<ReadEvent<T>>) -> ReadView
    decreases events.len(),
{
    if events.len() == 0 {
        v
    } else {
        let before = read_run(v, events.drop_last());
        match events.last() {
            ReadEvent::Chunk => before.chunk_begun(),
            ReadEvent::Item(_) => before,
            ReadEvent::ForwardFailed => before.forward_failed(),
        }
    }
}

/// The messages that are to be forwarded in a run of events.
pub open spec fn forwarded<T>(v: ReadView, events: Seq<ReadEvent<T>>) -> Seq<T>
    decreases events.len(),
{
    if events.len() == 0 {
        Seq::empty()
    } else {
        let before = forwarded(v, events.drop_last());
        match events.last() {
            ReadEvent::Item(Some(m)) => if read_action(
                read_run(v, events.drop_last()).skipping,
                true,
            ) is Forward {
                before.push(m)
            } else {
                before
            },
            _ => before,
        }
    }
}

/// The readable items in a run of events.
pub open spec fn readable<T>(events: Seq<ReadEvent<T>>) -> Seq<T>
    decreases events.len(),
{
    if events.len() == 0 {
        Seq::empty()
    } else {
        match events.last() {
            ReadEvent::Item(Some(m)) => readable(events.drop_last()).push(m),
            _ => readable(events.drop_last()),
        }
    }
}

/// While forwarding succeeds, exactly the readable items are forwarded, in their order, over any
/// chunks.
pub proof fn law_readable_items_are_forwarded<T>(kind: LinkKind, events: Seq<ReadEvent<T>>)
    requires
        forall|i: int| 0 <= i < events.len() ==> !(#[trigger] events[i] is ForwardFailed),
    ensures
        forwarded(ReadView::started(kind), events) == readable(events),
        read_run(ReadView::started(kind), events) == ReadView::started(kind),
    decreases events.len(),
{
    if events.len() > 0 {
        let front = events.drop_last();
        assert forall|i: int| 0 <= i < front.len() implies !(#[trigger] front[i]
            is ForwardFailed) by {
            assert(front[i] == events[i]);
        }
        law_readable_items_are_forwarded(kind, front);
        assert(!(events[events.len() - 1] is ForwardFailed));
    }
}

/// After a message could not be forwarded nothing more of its chunk is.
pub proof fn law_failed_forward_ends_the_chunk<T>(v: ReadView, events: Seq<ReadEvent<T>>, i: int)
    requires
        0 <= i < events.len(),
        events[i] is ForwardFailed,
        forall|j: int| i < j < events.len() ==> !(#[trigger] events[j] is Chunk),
    ensures
        forwarded(v, events) == forwarded(v, events.take(i)),
        read_run(v, events).skipping,
    decreases events.len(),
{
    let front = events.drop_last();
    if i == events.len() - 1 {
        assert(front =~= events.take(i));
    } else {
        assert forall|j: int| i < j < front.len() implies !(#[trigger] front[j] is Chunk) by {
            assert(front[j] == events[j]);
        }
        law_failed_forward_ends_the_chunk(v, front, i);
        assert(front.take(i) =~= events.take(i));
        assert(!(events[events.len() - 1] is Chunk));
    }
}

/// After a message of a client could not be forwarded nothing more of that client's is, over any
/// chunks.
pub proof fn law_failed_forward_stops_a_client<T>(v: ReadView, events: Seq<ReadEvent<T>>, i: int)
    requires
        v.kind is Client,
        0 <= i < events.len(),
        events[i] is ForwardFailed,
    ensures
        forwarded(v, events) == forwarded(v, events.take(i)),
        read_run(v, events).skipping,
        read_run(v, events).stopped,
    decreases events.len(),
{
    let front = events.drop_last();
    if i == events.len() - 1 {
        lemma_kind_stays(v, front);
        assert(front =~= events.take(i));
    } else {
        law_failed_forward_stops_a_client(v, front, i);
        assert(front.take(i) =~= events.take(i));
    }
}

/// A chunk of a peer's starts afresh, whatever could not be forwarded before it.
pub proof fn law_peer_chunk_starts_afresh<T>(events: Seq<ReadEvent<T>>)
    ensures
        read_run(ReadView::started(LinkKind::Peer), events.push(ReadEvent::Chunk))
            == ReadView::started(LinkKind::Peer),
{
    let v = ReadView::started(LinkKind::Peer);
    let all = events.push(ReadEvent::Chunk);
    assert(all.drop_last() =~= events);
    lemma_kind_stays(v, events);
}

/// Who is at the other end does not change, and only a client's reading ever stops.
proof fn lemma_kind_stays<T>(v: ReadView, events: Seq<ReadEvent<T>>)
    ensures
        read_run(v, events).kind == v.kind,
        v.kind is Peer ==> read_run(v, events).stopped == v.stopped,
    decreases events.len(),
{
    if events.len() > 0 {
        lemma_kind_stays(v, events.drop_last());
    }
}

/// What the task that writes is about to do.
#[derive(Clone, Copy, Debug, PartialEq, Eq, Structural)]
pub enum WriteState {
    /// Wait for messages.
    Receive,
    /// Write a message; `left` are still to be written, this one among them.
    Feed { left: usize },
    /// Flush what was written.
    Flush,
    /// Nothing: it is over.
    Closed,
}

/// What happened to the task that writes.
#[derive(Clone, Copy, Debug, PartialEq, Eq, Structural)]
pub enum WriteEvent {
    /// This many messages came. None come when there will be no more.
    Batch(usize),
    FeedOk,
    FeedFailed,
    FlushOk,
    FlushFailed,
}

/// What is next. A batch is written message by message, then flushed. Where a message cannot be
/// written the rest of its batch is dropped: to a peer what was written before it is still
/// flushed, to a client nothing more is sent. Where the flush fails it is over. An event that
/// does not belong to the state changes nothing.
pub open spec fn write_next(kind: LinkKind, state: WriteState, event: WriteEvent) -> WriteState {
    match (state, event) {
        (WriteState::Receive, WriteEvent::Batch(n)) => if n == 0 {
            WriteState::Closed
        } else {
            WriteState::Feed { left: n }
        },
        (WriteState::Feed { left }, WriteEvent::FeedOk) => if left <= 1 {
            WriteState::Flush
        } else {
            WriteState::Feed { left: (left - 1) as usize }
        },
        (WriteState::Feed { left: _ }, WriteEvent::FeedFailed) => match kind {
            LinkKind::Peer => WriteState::Flush,
            LinkKind::Client => WriteState::Closed,
        },
        (WriteState::Flush, WriteEvent::FlushOk) => WriteState::Receive,
        (WriteState::Flush, WriteEvent::FlushFailed) => WriteState::Closed,
        _ => state,
    }
}

/// The task that writes.
pub struct WriteLoop {
    kind: LinkKind,
    state: WriteState,
}

impl WriteLoop {
    /// Who is at the other end.
    pub closed spec fn spec_kind(&self) -> LinkKind {
        self.kind
    }

    /// What the task is about to do.
    pub closed spec fn spec_state(&self) -> WriteState {
        self.state
    }

    /// Before the first message.
    pub fn new(kind: LinkKind) -> (w: WriteLoop)
        ensures
            w.spec_kind() == kind,
            w.spec_state() == WriteState::Receive,
    {
        WriteLoop { kind, state: WriteState::Receive }
    }

    /// What the task is to do now.
    pub fn state(&self) -> (s: WriteState)
        ensures
            s == self.spec_state(),
    {
        self.state
    }

    /// Takes in what happened, and says what is next.
    pub fn step(&mut self, event: WriteEvent) -> (s: WriteState)
        ensures
            final(self).spec_kind() == old(self).spec_kind(),
            final(self).spec_state() == write_next(
                old(self).spec_kind(),
                old(self).spec_state(),
                event,
            ),
            s == final(self).spec_state(),
    {
        self.state = match (self.state, event) {
            (WriteState::Receive, WriteEvent::Batch(n)) => {
                if n == 0 {
                    WriteState::Closed
                } else {
                    WriteState::Feed { left: n }
                }
            },
            (WriteState::Feed { left }, WriteEvent::FeedOk) => {
                if left <= 1 {
                    WriteState::Flush
                } else {
                    WriteState::Feed { left: left - 1 }
                }
            },
            (WriteState::Feed { left: _ }, WriteEvent::FeedFailed) => match self.kind {
                LinkKind::Peer => WriteState::Flush,
                LinkKind::Client => WriteState::Closed,
            },
            (WriteState::Flush, WriteEvent::FlushOk) => WriteState::Receive,
            (WriteState::Flush, WriteEvent::FlushFailed) => WriteState::Closed,
            (state, _) => state,
        };
        self.state
    }
}

/// The state after a run of events.
pub open spec fn write_run(kind: LinkKind, state: WriteState, events: Seq<WriteEvent>) -> WriteState
    decreases events.len(),
{
    if events.len() == 0 {
        state
    } else {
        write_next(kind, write_run(kind, state, events.drop_last()), events.last())
    }
}

/// A batch is written whole before it is flushed: after `k` of its `n` messages were written,
/// `n - k` are left, and the flush comes after the last of them.
pub proof fn law_batch_is_written_then_flushed(kind: LinkKind, n: usize, k: nat)
    requires
        0 < n,
        k <= n,
    ensures
        write_run(kind, write_next(kind, WriteState::Receive, WriteEvent::Batch(n)), Seq::new(
            k,
            |i: int| WriteEvent::FeedOk,
        )) == (if k == n {
            WriteState::Flush
        } else {
            WriteState::Feed { left: (n - k) as usize }
        }),
    decreases k,
{
    let events = Seq::new(k, |i: int| WriteEvent::FeedOk);
    if k > 0 {
        law_batch_is_written_then_flushed(kind, n, (k - 1) as nat);
        assert(events.drop_last() =~= Seq::new((k - 1) as nat, |i: int| WriteEvent::FeedOk));
    }
}

/// What is over stays over.
pub proof fn law_closed_stays_closed(kind: LinkKind, events: Seq<WriteEvent>)
    ensures
        write_run(kind, WriteState::Closed, events) == WriteState::Closed,
    decreases events.len(),
{
    if events.len() > 0 {
        law_closed_stays_closed(kind, events.drop_last());
    }
}

/// After a message to a client could not be written nothing more is sent to it; what was written
/// to a peer before one that failed is still flushed.
pub proof fn law_failed_write(left: usize, events: Seq<WriteEvent>)
    ensures
        write_run(
            LinkKind::Client,
            write_next(LinkKind::Client, WriteState::Feed { left }, WriteEvent::FeedFailed),
            events,
        ) == WriteState::Closed,
        write_next(LinkKind::Peer, WriteState::Feed { left }, WriteEvent::FeedFailed)
            == WriteState::Flush,
{
    law_closed_stays_closed(LinkKind::Client, events);
}

/// What happened to the task that writes, with the messages that came. A batch comes where the task
/// waits for one.
pub enum SendEvent<T> {
    Batch(Seq<T>),
    FeedOk,
    FeedFailed,
    FlushOk,
    FlushFailed,
}

impl<T> SendEvent<T> {
    /// The event as the task sees it: it counts the messages.
    pub open spec fn counted(self) -> WriteEvent {
        match self {
            SendEvent::Batch(batch) => WriteEvent::Batch(batch.len() as usize),
            SendEvent::FeedOk => WriteEvent::FeedOk,
            SendEvent::FeedFailed => WriteEvent::FeedFailed,
            SendEvent::FlushOk => WriteEvent::FlushOk,
            SendEvent::FlushFailed => WriteEvent::FlushFailed,
        }
    }
}

/// What became of a batch: its first `written` messages were written, and it was `cut` where the
/// one behind them could not be.
pub struct Part<T> {
    pub batch: Seq<T>,
    pub written: nat,
    pub cut: bool,
}

impl<T> Part<T> {
    /// Whether every message of the batch was written.
    pub open spec fn whole(self) -> bool {
        self.written == self.batch.len()
    }

    /// The messages that were written.
    pub open spec fn head(self) -> Seq<T> {
        self.batch.take(self.written as int)
    }
}

/// What the task is about to do, and what became of the batches that it took in, in their order.
pub struct Writing<T> {
    pub state: WriteState,
    pub parts: Seq<Part<T>>,
}

impl<T> Writing<T> {
    /// After an event.
    pub open spec fn next(self, kind: LinkKind, event: SendEvent<T>) -> Writing<T> {
        let at = self.parts.len() - 1;
        let parts = match (self.state, event) {
            (WriteState::Receive, SendEvent::Batch(batch)) => if batch.len() == 0 {
                self.parts
            } else {
                self.parts.push(Part { batch, written: 0, cut: false })
            },
            (WriteState::Feed { left: _ }, SendEvent::FeedOk) => self.parts.update(
                at,
                Part { written: self.parts[at].written + 1, ..self.parts[at] },
            ),
            (WriteState::Feed { left: _ }, SendEvent::FeedFailed) => self.parts.update(
                at,
                Part { cut: true, ..self.parts[at] },
            ),
            _ => self.parts,
        };
        Writing { state: write_next(kind, self.state, event.counted()), parts }
    }
}

/// What became of what was to be written in a run of events.
pub open spec fn writing_run<T>(kind: LinkKind, events: Seq<SendEvent<T>>) -> Writing<T>
    decreases events.len(),
{
    if events.len() == 0 {
        Writing { state: WriteState::Receive, parts: Seq::empty() }
    } else {
        writing_run(kind, events.drop_last()).next(kind, events.last())
    }
}

/// The messages of all batches.
pub open spec fn received<T>(parts: Seq<Part<T>>) -> Seq<T>
    decreases parts.len(),
{
    if parts.len() == 0 {
        Seq::empty()
    } else {
        received(parts.drop_last()) + parts.last().batch
    }
}

/// The messages of all batches that were written.
pub open spec fn written<T>(parts: Seq<Part<T>>) -> Seq<T>
    decreases parts.len(),
{
    if parts.len() == 0 {
        Seq::empty()
    } else {
        written(parts.drop_last()) + parts.last().head()
    }
}

/// Whether an index can name each message of every batch.
pub open spec fn batches_fit<T>(events: Seq<SendEvent<T>>) -> bool {
    forall|i: int|
        0 <= i < events.len() ==> (#[trigger] events[i] matches SendEvent::Batch(batch)
            ==> batch.len() <= usize::MAX)
}

/// What is known of every batch: it was written whole or was cut, unless it is the last and is
/// being written. To a client nothing is written after a batch that was cut.
spec fn accounted<T>(kind: LinkKind, w: Writing<T>) -> bool {
    let last = w.parts.len() - 1;
    &&& forall|i: int|
        0 <= i < w.parts.len() ==> {
            let part = #[trigger] w.parts[i];
            &&& part.written <= part.batch.len()
            &&& part.cut ==> !part.whole()
            &&& part.cut && kind is Client ==> i == last && w.state is Closed
            &&& part.cut || part.whole() || (i == last && w.state is Feed)
        }
    &&& w.state matches WriteState::Feed { left } ==> {
        &&& last >= 0
        &&& !w.parts[last].cut
        &&& left > 0
        &&& w.parts[last].written + left == w.parts[last].batch.len()
    }
}

/// Every batch is accounted for, and a batch is cut only where a message could not be written.
proof fn lemma_accounted<T>(kind: LinkKind, events: Seq<SendEvent<T>>)
    requires
        batches_fit(events),
    ensures
        accounted(kind, writing_run(kind, events)),
        (forall|i: int| 0 <= i < events.len() ==> !(#[trigger] events[i] is FeedFailed)) ==> (
        forall|i: int|
            0 <= i < writing_run(kind, events).parts.len() ==> !(#[trigger] writing_run(
                kind,
                events,
            ).parts[i]).cut),
    decreases events.len(),
{
    if events.len() > 0 {
        let front = events.drop_last();
        assert(forall|i: int| 0 <= i < front.len() ==> #[trigger] front[i] == events[i]);
        lemma_accounted(kind, front);
        assert(events[events.len() - 1] == events.last());
        let before = writing_run(kind, front);
        let after = writing_run(kind, events);
        assert(after == before.next(kind, events.last()));
        assert forall|i: int| 0 <= i < after.parts.len() implies {
            let part = #[trigger] after.parts[i];
            &&& part.written <= part.batch.len()
            &&& part.cut ==> !part.whole()
            &&& part.cut && kind is Client ==> i == after.parts.len() - 1 && after.state is Closed
            &&& part.cut || part.whole() || (i == after.parts.len() - 1 && after.state is Feed)
        } by {
            if i < before.parts.len() {
                assert(before.parts[i].written <= before.parts[i].batch.len());
            }
        }
    }
}

/// Where every batch but the last was written whole, what was written is the beginning of what
/// came.
proof fn lemma_written_is_a_prefix<T>(parts: Seq<Part<T>>)
    requires
        forall|i: int| 0 <= i < parts.len() - 1 ==> (#[trigger] parts[i]).whole(),
        parts.len() > 0 ==> parts.last().written <= parts.last().batch.len(),
    ensures
        written(parts) == received(parts).take(written(parts).len() as int),
        parts.len() > 0 ==> received(parts).len() - written(parts).len()
            == parts.last().batch.len() - parts.last().written,
    decreases parts.len(),
{
    if parts.len() > 0 {
        let front = parts.drop_last();
        assert(forall|i: int| 0 <= i < front.len() ==> #[trigger] front[i] == parts[i]);
        if front.len() > 0 {
            assert(parts[front.len() - 1].whole());
        }
        lemma_written_is_a_prefix(front);
        assert(received(front).take(received(front).len() as int) =~= received(front));
    }
}

/// While nothing fails every message of every batch is written, once and in order: what was
/// written is what came, up to the messages of the last batch that are still to be written.
pub proof fn law_messages_are_written_in_order<T>(kind: LinkKind, events: Seq<SendEvent<T>>)
    requires
        batches_fit(events),
        forall|i: int| 0 <= i < events.len() ==> !(#[trigger] events[i] is FeedFailed),
        forall|i: int| 0 <= i < events.len() ==> !(#[trigger] events[i] is FlushFailed),
    ensures
        ({
            let w = writing_run(kind, events);
            &&& written(w.parts) == received(w.parts).take(written(w.parts).len() as int)
            &&& match w.state {
                WriteState::Feed { left } => written(w.parts).len() + left == received(
                    w.parts,
                ).len(),
                _ => written(w.parts) == received(w.parts),
            }
        }),
{
    let w = writing_run(kind, events);
    lemma_accounted(kind, events);
    assert forall|i: int| 0 <= i < w.parts.len() - 1 implies (#[trigger] w.parts[i]).whole() by {
        assert(!w.parts[i].cut);
    }
    if w.parts.len() > 0 {
        assert(!w.parts[w.parts.len() - 1].cut);
    }
    lemma_written_is_a_prefix(w.parts);
    if !(w.state is Feed) {
        assert(written(w.parts) =~= received(w.parts));
    }
}

/// What is written to a client is the beginning of what came for it, whatever fails: no message is
/// left out before one that is written.
pub proof fn law_client_is_sent_a_prefix<T>(events: Seq<SendEvent<T>>)
    requires
        batches_fit(events),
    ensures
        ({
            let w = writing_run(LinkKind::Client, events);
            written(w.parts) == received(w.parts).take(written(w.parts).len() as int)
        }),
{
    let w = writing_run(LinkKind::Client, events);
    lemma_accounted(LinkKind::Client, events);
    assert forall|i: int| 0 <= i < w.parts.len() - 1 implies (#[trigger] w.parts[i]).whole() by {
        assert(w.parts[i].written <= w.parts[i].batch.len());
    }
    if w.parts.len() > 0 {
        assert(w.parts[w.parts.len() - 1].written <= w.parts[w.parts.len() - 1].batch.len());
    }
    lemma_written_is_a_prefix(w.parts);
}

/// Of a batch in which a message could not be written, that message and the rest are left out, and
/// no other message is: every other batch is written whole, unless it is the last and is being
/// written.
pub proof fn law_only_the_rest_of_a_batch_is_left_out<T>(
    kind: LinkKind,
    events: Seq<SendEvent<T>>,
    i: int,
)
    requires
        batches_fit(events),
        0 <= i < writing_run(kind, events).parts.len(),
    ensures
        ({
            let w = writing_run(kind, events);
            let part = w.parts[i];
            if part.cut {
                part.written < part.batch.len()
            } else if i == w.parts.len() - 1 && w.state is Feed {
                part.written + w.state->left == part.batch.len()
            } else {
                part.head() == part.batch
            }
        }),
{
    lemma_accounted(kind, events);
    let part = writing_run(kind, events).parts[i];
    assert(part.batch.take(part.batch.len() as int) =~= part.batch);
}

/// Where the rest of a chunk is left out, so is every item; elsewhere a message is forwarded and
/// anything else reported.
pub proof fn law_item_is_forwarded_reported_or_left_out(readable: bool)
    ensures
        read_action(true, readable) is Skip,
        read_action(false, true) is Forward,
        read_action(false, false) is Report,
{
}

/// A reader starts by leaving nothing out. A failure to forward leaves out the rest of the chunk,
/// and stops the reading of a client for good; a new chunk is looked at unless reading has
/// stopped. Who is at the other end does not change.
pub proof fn law_reader_starts_fails_and_goes_on(v: ReadView, kind: LinkKind)
    ensures
        ReadView::started(kind).kind == kind,
        !ReadView::started(kind).skipping,
        !ReadView::started(kind).stopped,
        v.forward_failed().kind == v.kind,
        v.forward_failed().skipping,
        v.forward_failed().stopped <==> v.stopped || v.kind is Client,
        v.chunk_begun().kind == v.kind,
        v.chunk_begun().skipping == v.stopped,
        v.chunk_begun().stopped == v.stopped,
{
}

/// A writer that waits writes the messages that come, and is over where none come. Each message
/// that is written leaves one fewer, and the flush follows the last. A message that cannot be
/// written leads to the flush of what was written before it, or to a client to the end. After a
/// flush the writer waits again, after a failed one it is over.
pub proof fn law_writer_goes_on(kind: LinkKind, n: usize)
    ensures
        write_next(kind, WriteState::Receive, WriteEvent::Batch(n)) == (if n > 0 {
            WriteState::Feed { left: n }
        } else {
            WriteState::Closed
        }),
        n > 1 ==> write_next(kind, WriteState::Feed { left: n }, WriteEvent::FeedOk)
            == (WriteState::Feed { left: (n - 1) as usize }),
        n <= 1 ==> write_next(kind, WriteState::Feed { left: n }, WriteEvent::FeedOk) is Flush,
        kind is Peer ==> write_next(kind, WriteState::Feed { left: n }, WriteEvent::FeedFailed)
            is Flush,
        kind is Client ==> write_next(kind, WriteState::Feed { left: n }, WriteEvent::FeedFailed)
            is Closed,
        write_next(kind, WriteState::Flush, WriteEvent::FlushOk) is Receive,
        write_next(kind, WriteState::Flush, WriteEvent::FlushFailed) is Closed,
{
}

/// An event that does not belong to what the writer is about to do changes nothing.
pub proof fn law_stray_event_changes_nothing(kind: LinkKind, state: WriteState, event: WriteEvent)
    requires
        state is Receive ==> !(event is Batch),
        state is Feed ==> !(event is FeedOk) && !(event is FeedFailed),
        state is Flush ==> !(event is FlushOk) && !(event is FlushFailed),
    ensures
        write_next(kind, state, event) == state,
{
}

} // verus!
