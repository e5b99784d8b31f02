//! The listener for QUIC, which carries HTTP/3.
//!
//! Three machines stand one below the other: the listener, which takes
//! connection attempts; the connection, which takes requests; and the request
//! task, which sends one response. Each connection and each request has a
//! machine of its own, so the failure of one is never an event of another.

use crate::data::byte_strings;
use crate::service::{reads_to_end, Body, BodyStep, BodyStream, ReadOutcome, Response};
use vstd::prelude::*;

verus! {

/// Most bytes of early data that the listener accepts on a connection: no
/// bound short of what the field can hold.
pub const MAX_EARLY_DATA: u32 = 0xffff_ffff;

/// The name `h3` as it stands in the ALPN extension.
pub open spec fn h3_name() -> Seq<u8> {
    seq![0x68u8, 0x33u8]
}

/// The protocols that the listener offers: HTTP/3 and no other.
pub open spec fn offered() -> Seq<Seq<u8>> {
    seq![h3_name()]
}

/// The ALPN protocols for the TLS configuration of this listener.
pub fn alpn_protocols() -> (protocols: Vec<Vec<u8>>)
    ensures
        byte_strings(protocols) == offered(),
{
    let h3: Vec<u8> = vec![0x68, 0x33];
    let protocols: Vec<Vec<u8>> = vec![h3];
    assert(h3@ =~= h3_name());
    assert(byte_strings(protocols) =~= offered());
    protocols
}

/// How far the listener has come.
#[derive(Clone, Copy, Debug, PartialEq, Eq, Structural)]
pub enum Phase {
    /// The socket is not bound yet.
    Binding,
    /// The socket is bound and connection attempts are taken.
    Listening,
    /// The listener has ended.
    Stopped,
}

/// The listener of one address.
#[derive(Clone, Copy, Debug, PartialEq, Eq, Structural)]
pub struct Acceptor {
    /// The UDP port that the listener is bound to.
    pub port: u16,
    pub phase: Phase,
}

/// What happened on the listener's endpoint.
#[derive(Clone, Copy, Debug, PartialEq, Eq, Structural)]
pub enum Event {
    /// The UDP socket was bound.
    Bound,
    /// The UDP socket could not be bound.
    BindFailed,
    /// A peer attempts a connection.
    Incoming,
    /// The endpoint was closed: no further attempt will come.
    Closed,
}

/// What the driver of the listener is to do next.
#[derive(Clone, Copy, Debug, PartialEq, Eq, Structural)]
pub enum Action {
    /// Bind the UDP socket.
    Bind,
    /// Start to take connection attempts, and go on until told to end.
    Listen,
    /// Start a [`Connection`] for the attempt, to run beside all others.
    Spawn { port: u16 },
    /// End, and report to whoever started the listener whether this is a
    /// failure.
    Exit { failed: bool },
    /// Nothing: the event has no meaning in this phase.
    Ignore,
}

impl Acceptor {
    /// The listener after `event`, and what it asks for.
    pub open spec fn next(self, event: Event) -> (Acceptor, Action) {
        match (self.phase, event) {
            (Phase::Binding, Event::Bound) => (
                Acceptor { port: self.port, phase: Phase::Listening },
                Action::Listen,
            ),
            (Phase::Binding, Event::BindFailed) => (
                Acceptor { port: self.port, phase: Phase::Stopped },
                Action::Exit { failed: true },
            ),
            (Phase::Listening, Event::Incoming) => (self, Action::Spawn { port: self.port }),
            (Phase::Listening, Event::Closed) => (
                Acceptor { port: self.port, phase: Phase::Stopped },
                Action::Exit { failed: false },
            ),
            _ => (self, Action::Ignore),
        }
    }

    /// The listener after all of `events`, in their order.
    pub open spec fn run(self, events: Seq<Event>) -> Acceptor
        decreases events.len(),
    {
        if events.len() == 0 {
            self
        } else {
            self.next(events[0]).0.run(events.skip(1))
        }
    }

    /// Takes an event and says what to do next.
    pub fn step(self, event: Event) -> (r: (Acceptor, Action))
        ensures
            r == self.next(event),
    {
        match self.phase {
            Phase::Binding => match event {
                Event::Bound => (
                    Acceptor { port: self.port, phase: Phase::Listening },
                    Action::Listen,
                ),
                Event::BindFailed => (
                    Acceptor { port: self.port, phase: Phase::Stopped },
                    Action::Exit { failed: true },
                ),
                _ => (self, Action::Ignore),
            },
            Phase::Listening => match event {
                Event::Incoming => (self, Action::Spawn { port: self.port }),
                Event::Closed => (
                    Acceptor { port: self.port, phase: Phase::Stopped },
                    Action::Exit { failed: false },
                ),
                _ => (self, Action::Ignore),
            },
            Phase::Stopped => (self, Action::Ignore),
        }
    }
}

/// The listener for `port`, not yet bound, and its first action.
pub fn server(port: u16) -> (r: (Acceptor, Action))
    ensures
        r == (Acceptor { port, phase: Phase::Binding }, Action::Bind),
{
    (Acceptor { port, phase: Phase::Binding }, Action::Bind)
}

/// How far a connection has come.
#[derive(Clone, Copy, Debug, PartialEq, Eq, Structural)]
pub enum Stage {
    /// The QUIC handshake is under way.
    Connecting,
    /// The connection stands and requests are taken from it.
    Serving,
    /// The connection is over.
    Over,
}

/// One connection of the listener.
#[derive(Clone, Copy, Debug, PartialEq, Eq, Structural)]
pub struct Connection {
    /// The port of the listener that took the connection.
    pub port: u16,
    pub stage: Stage,
}

/// What happened on a connection.
#[derive(Clone, Copy, Debug, PartialEq, Eq, Structural)]
pub enum ConnectionEvent {
    /// The QUIC handshake succeeded.
    Established,
    /// The QUIC handshake failed.
    HandshakeFailed,
    /// A request came in, together with the stream to answer it on.
    Request,
    /// The peer closed the connection.
    PeerClosed,
    /// The connection broke below HTTP/3.
    Broken,
}

/// What the driver of a connection is to do next.
#[derive(Clone, Copy, Debug, PartialEq, Eq, Structural)]
pub enum ConnectionAction {
    /// Wait for the handshake to end.
    Connect,
    /// Start to take requests, and go on until told to end.
    Accept,
    /// Start a [`Task`] for the request, to run beside all others, and
    /// answer it with the file handler, called with this port.
    Dispatch { port: u16 },
    /// Drop the connection and note why.
    Discard,
    /// End: the peer has gone.
    Close,
    /// Nothing: the event has no meaning at this stage.
    Ignore,
}

impl Connection {
    /// The connection after `event`, and what it asks for.
    pub open spec fn next(self, event: ConnectionEvent) -> (Connection, ConnectionAction) {
        match (self.stage, event) {
            (Stage::Connecting, ConnectionEvent::Established) => (
                Connection { port: self.port, stage: Stage::Serving },
                ConnectionAction::Accept,
            ),
            (Stage::Connecting, ConnectionEvent::HandshakeFailed) => (
                Connection { port: self.port, stage: Stage::Over },
                ConnectionAction::Discard,
            ),
            (Stage::Serving, ConnectionEvent::Request) => (
                self,
                ConnectionAction::Dispatch { port: self.port },
            ),
            (Stage::Serving, ConnectionEvent::PeerClosed) => (
                Connection { port: self.port, stage: Stage::Over },
                ConnectionAction::Close,
            ),
            (Stage::Serving, ConnectionEvent::Broken) => (
                Connection { port: self.port, stage: Stage::Over },
                ConnectionAction::Discard,
            ),
            _ => (self, ConnectionAction::Ignore),
        }
    }

    /// The connection after all of `events`, in their order.
    pub open spec fn run(self, events: Seq<ConnectionEvent>) -> Connection
        decreases events.len(),
    {
        if events.len() == 0 {
            self
        } else {
            self.next(events[0]).0.run(events.skip(1))
        }
    }

    /// The connection for an attempt that the listener on `port` took, and
    /// its first action.
    pub fn new(port: u16) -> (r: (Connection, ConnectionAction))
        ensures
            r == (Connection { port, stage: Stage::Connecting }, ConnectionAction::Connect),
    {
        (Connection { port, stage: Stage::Connecting }, ConnectionAction::Connect)
    }

    /// Takes an event and says what to do next.
    pub fn step(self, event: ConnectionEvent) -> (r: (Connection, ConnectionAction))
        ensures
            r == self.next(event),
    {
        match self.stage {
            Stage::Connecting => match event {
                ConnectionEvent::Established => (
                    Connection { port: self.port, stage: Stage::Serving },
                    ConnectionAction::Accept,
                ),
                ConnectionEvent::HandshakeFailed => (
                    Connection { port: self.port, stage: Stage::Over },
                    ConnectionAction::Discard,
                ),
                _ => (self, ConnectionAction::Ignore),
            },
            Stage::Serving => match event {
                ConnectionEvent::Request => (self, ConnectionAction::Dispatch { port: self.port }),
                ConnectionEvent::PeerClosed => (
                    Connection { port: self.port, stage: Stage::Over },
                    ConnectionAction::Close,
                ),
                ConnectionEvent::Broken => (
                    Connection { port: self.port, stage: Stage::Over },
                    ConnectionAction::Discard,
                ),
                _ => (self, ConnectionAction::Ignore),
            },
            Stage::Over => (self, ConnectionAction::Ignore),
        }
    }
}

/// The task that sends one response on the stream of its request.
#[derive(Clone, Copy, Debug, PartialEq, Eq, Structural)]
pub enum Task {
    /// The head is being sent; `body` is what follows it.
    Heading { body: Body },
    /// The next chunk of the body is awaited.
    Streaming,
    /// A chunk is being sent.
    Sending,
    /// The stream is being closed.
    Finishing,
    /// The response has gone out whole.
    Done,
    /// The task was given up.
    Failed,
}

/// What happened to a request task.
#[derive(Clone, Copy, Debug, PartialEq, Eq, Structural)]
pub enum TaskEvent {
    /// The head, or the chunk, has been sent.
    Sent,
    /// The body handed out its next step.
    Body(BodyStep),
    /// The stream has been closed.
    Finished,
    /// The last operation on the stream failed.
    Failed,
}

/// What the driver of a request task is to do next.
#[derive(Clone, Copy, Debug, PartialEq, Eq, Structural)]
pub enum TaskAction {
    /// Send the head of the response.
    SendHead,
    /// Ask the body for its next step.
    Pull,
    /// Send the chunk that the body has just handed out, of so many bytes.
    SendData(usize),
    /// Close the sending side of the stream.
    Finish,
    /// End: the response is complete.
    Complete,
    /// End and note the failure; the connection and its other requests go on.
    Abandon,
    /// Nothing: the event has no meaning in this state.
    Ignore,
}

impl Task {
    /// The task after `event`, and what it asks for.
    pub open spec fn next(self, event: TaskEvent) -> (Task, TaskAction) {
        match (self, event) {
            (Task::Heading { body: Body::Empty }, TaskEvent::Sent) => (
                Task::Finishing,
                TaskAction::Finish,
            ),
            (Task::Heading { body: Body::File }, TaskEvent::Sent) => (
                Task::Streaming,
                TaskAction::Pull,
            ),
            (Task::Streaming, TaskEvent::Body(BodyStep::Chunk(n))) => (
                Task::Sending,
                TaskAction::SendData(n),
            ),
            (Task::Streaming, TaskEvent::Body(BodyStep::End)) => (
                Task::Finishing,
                TaskAction::Finish,
            ),
            (Task::Streaming, TaskEvent::Body(BodyStep::Abort)) => (
                Task::Failed,
                TaskAction::Abandon,
            ),
            (Task::Sending, TaskEvent::Sent) => (Task::Streaming, TaskAction::Pull),
            (Task::Finishing, TaskEvent::Finished) => (Task::Done, TaskAction::Complete),
            (Task::Done, _) => (self, TaskAction::Ignore),
            (Task::Failed, _) => (self, TaskAction::Ignore),
            (_, TaskEvent::Failed) => (Task::Failed, TaskAction::Abandon),
            _ => (self, TaskAction::Ignore),
        }
    }

    /// The task after all of `events`, in their order.
    pub open spec fn run(self, events: Seq<TaskEvent>) -> Task
        decreases events.len(),
    {
        if events.len() == 0 {
            self
        } else {
            self.next(events[0]).0.run(events.skip(1))
        }
    }

    /// The sizes of the chunks that the task asks to send in the course of
    /// `events`, in the order in which it asks.
    pub open spec fn data_sent(self, events: Seq<TaskEvent>) -> Seq<usize>
        decreases events.len(),
    {
        if events.len() == 0 {
            Seq::empty()
        } else {
            let (after, action) = self.next(events[0]);
            let rest = after.data_sent(events.skip(1));
            match action {
                TaskAction::SendData(n) => seq![n] + rest,
                _ => rest,
            }
        }
    }

    /// Whether the task asks for the stream to be closed in the course of
    /// `events`.
    pub open spec fn finishes(self, events: Seq<TaskEvent>) -> bool
        decreases events.len(),
    {
        if events.len() == 0 {
            false
        } else {
            let (after, action) = self.next(events[0]);
            action == TaskAction::Finish || after.finishes(events.skip(1))
        }
    }

    /// Takes an event and says what to do next.
    pub fn step(self, event: TaskEvent) -> (r: (Task, TaskAction))
        ensures
            r == self.next(event),
    {
        match self {
            Task::Done => (self, TaskAction::Ignore),
            Task::Failed => (self, TaskAction::Ignore),
            Task::Heading { body } => match event {
                TaskEvent::Sent => match body {
                    Body::Empty => (Task::Finishing, TaskAction::Finish),
                    Body::File => (Task::Streaming, TaskAction::Pull),
                },
                TaskEvent::Failed => (Task::Failed, TaskAction::Abandon),
                _ => (self, TaskAction::Ignore),
            },
            Task::Streaming => match event {
                TaskEvent::Body(BodyStep::Chunk(n)) => (Task::Sending, TaskAction::SendData(n)),
                TaskEvent::Body(BodyStep::End) => (Task::Finishing, TaskAction::Finish),
                TaskEvent::Body(BodyStep::Abort) => (Task::Failed, TaskAction::Abandon),
                TaskEvent::Failed => (Task::Failed, TaskAction::Abandon),
                _ => (self, TaskAction::Ignore),
            },
            Task::Sending => match event {
                TaskEvent::Sent => (Task::Streaming, TaskAction::Pull),
                TaskEvent::Failed => (Task::Failed, TaskAction::Abandon),
                _ => (self, TaskAction::Ignore),
            },
            Task::Finishing => match event {
                TaskEvent::Finished => (Task::Done, TaskAction::Complete),
                TaskEvent::Failed => (Task::Failed, TaskAction::Abandon),
                _ => (self, TaskAction::Ignore),
            },
        }
    }
}

/// The task that sends `response` on the stream of its request, and its
/// first action. The response is the file handler's; the task sends its head,
/// then its body chunk by chunk, and then closes the stream.
pub fn handle_request(response: &Response) -> (r: (Task, TaskAction))
    ensures
        r == (Task::Heading { body: response.body }, TaskAction::SendHead),
{
    (Task::Heading { body: response.body }, TaskAction::SendHead)
}

/// The events of sending `chunks`: each is handed out by the body and then
/// sent.
pub open spec fn rounds(chunks: Seq<usize>) -> Seq<TaskEvent>
    decreases chunks.len(),
{
    if chunks.len() == 0 {
        Seq::empty()
    } else {
        seq![TaskEvent::Body(BodyStep::Chunk(chunks[0])), TaskEvent::Sent] + rounds(chunks.skip(1))
    }
}

/// The events of a request task from the moment its head is sent, where the
/// body hands out `chunks` and then ends, and nothing fails.
pub open spec fn smooth(chunks: Seq<usize>) -> Seq<TaskEvent> {
    rounds(chunks) + seq![TaskEvent::Body(BodyStep::End), TaskEvent::Finished]
}

/// How the sending of a response goes.
#[derive(Clone, Copy, Debug, PartialEq, Eq, Structural)]
pub enum Course {
    /// Nothing fails.
    Smooth,
    /// The head cannot be sent.
    HeadFails,
    /// After some chunks a read of the file fails, so the body breaks off.
    ReadFails,
    /// After some chunks a further chunk, of so many bytes, cannot be sent.
    SendFails(usize),
    /// All chunks are sent, but the stream cannot be closed.
    CloseFails,
}

/// Whether a response with `body` can take `course` after `chunks`: where
/// there is no file, there are no chunks to send and no reads to fail.
pub open spec fn possible(body: Body, chunks: Seq<usize>, course: Course) -> bool {
    body == Body::Empty ==> chunks.len() == 0 && (course == Course::Smooth || course
        == Course::HeadFails || course == Course::CloseFails)
}

/// The events of a request task for a response with `body`, from its first
/// action on, where `chunks` are sent before the course of things is
/// decided.
pub open spec fn events_of(body: Body, chunks: Seq<usize>, course: Course) -> Seq<TaskEvent> {
    match course {
        Course::HeadFails => seq![TaskEvent::Failed],
        _ => seq![TaskEvent::Sent] + match body {
            Body::Empty => match course {
                Course::Smooth => seq![TaskEvent::Finished],
                _ => seq![TaskEvent::Failed],
            },
            Body::File => rounds(chunks) + match course {
                Course::Smooth => seq![TaskEvent::Body(BodyStep::End), TaskEvent::Finished],
                Course::ReadFails => seq![TaskEvent::Body(BodyStep::Abort)],
                Course::SendFails(n) => seq![
                    TaskEvent::Body(BodyStep::Chunk(n)),
                    TaskEvent::Failed,
                ],
                _ => seq![TaskEvent::Body(BodyStep::End), TaskEvent::Failed],
            },
        },
    }
}

/// The task and the bytes that it has sent when its driver pulls the body of
/// a file whose reads return `reads`, each send succeeds and so does the
/// closing of the stream. This is the body stream and the request task put
/// together: each read goes to the stream, each step of the stream to the
/// task, and each chunk that the task asks to send is the bytes of the read.
pub open spec fn relay(task: Task, stream: BodyStream, reads: Seq<Seq<u8>>) -> (Task, Seq<u8>)
    decreases reads.len(),
{
    if reads.len() == 0 {
        (task, Seq::empty())
    } else {
        let (stream_after, step) = stream.next(ReadOutcome::Bytes(reads[0].len() as usize));
        let (pulled, action) = task.next(TaskEvent::Body(step));
        match action {
            TaskAction::SendData(n) => {
                let (task_after, bytes) = relay(
                    pulled.next(TaskEvent::Sent).0,
                    stream_after,
                    reads.skip(1),
                );
                (task_after, reads[0].take(n as int) + bytes)
            },
            TaskAction::Finish => (pulled.next(TaskEvent::Finished).0, Seq::empty()),
            _ => (pulled, Seq::empty()),
        }
    }
}

/// A listener goes on listening for as long as its endpoint is open,
/// whatever becomes of the connections that it took: every attempt gets a
/// connection of its own.
pub proof fn lemma_listener_outlives_connections(acceptor: Acceptor, events: Seq<Event>)
    requires
        acceptor.phase == Phase::Listening,
        forall|i: int| 0 <= i < events.len() ==> events[i] != Event::Closed,
    ensures
        acceptor.run(events) == acceptor,
        acceptor.run(events).next(Event::Incoming).1 == (Action::Spawn { port: acceptor.port }),
    decreases events.len(),
{
    if events.len() > 0 {
        assert(acceptor.next(events[0]).0 == acceptor);
        assert forall|i: int| 0 <= i < events.skip(1).len() implies events.skip(1)[i]
            != Event::Closed by {
            assert(events.skip(1)[i] == events[i + 1]);
        }
        lemma_listener_outlives_connections(acceptor, events.skip(1));
    }
}

/// A connection goes on taking requests until the peer closes it or it
/// breaks, whatever becomes of the requests that it took: every request gets
/// a task of its own.
pub proof fn lemma_connection_outlives_requests(
    connection: Connection,
    events: Seq<ConnectionEvent>,
)
    requires
        connection.stage == Stage::Serving,
        forall|i: int|
            0 <= i < events.len() ==> events[i] != ConnectionEvent::PeerClosed && events[i]
                != ConnectionEvent::Broken,
    ensures
        connection.run(events) == connection,
        connection.run(events).next(ConnectionEvent::Request).1 == (ConnectionAction::Dispatch {
            port: connection.port,
        }),
    decreases events.len(),
{
    if events.len() > 0 {
        assert(connection.next(events[0]).0 == connection);
        assert forall|i: int| 0 <= i < events.skip(1).len() implies events.skip(1)[i]
            != ConnectionEvent::PeerClosed && events.skip(1)[i] != ConnectionEvent::Broken by {
            assert(events.skip(1)[i] == events[i + 1]);
        }
        lemma_connection_outlives_requests(connection, events.skip(1));
    }
}

/// Events that come one after the other are taken one after the other.
pub proof fn lemma_events_in_sequence(task: Task, first: Seq<TaskEvent>, then: Seq<TaskEvent>)
    ensures
        task.run(first + then) == task.run(first).run(then),
        task.data_sent(first + then) == task.data_sent(first) + task.run(first).data_sent(then),
        task.finishes(first + then) == (task.finishes(first) || task.run(first).finishes(then)),
    decreases first.len(),
{
    if first.len() == 0 {
        assert(first + then =~= then);
        assert(task.data_sent(first) + task.data_sent(then) =~= task.data_sent(then));
    } else {
        let (after, action) = task.next(first[0]);
        assert((first + then)[0] == first[0]);
        assert((first + then).skip(1) =~= first.skip(1) + then);
        lemma_events_in_sequence(after, first.skip(1), then);
        let rest_first = after.data_sent(first.skip(1));
        let rest_then = after.run(first.skip(1)).data_sent(then);
        match action {
            TaskAction::SendData(n) => {
                assert(seq![n] + (rest_first + rest_then) =~= (seq![n] + rest_first) + rest_then);
            },
            _ => {},
        }
    }
}

/// While chunks are handed out and sent, the task sends each of them once,
/// in their order, stays ready for the next, and does not close the stream.
pub proof fn lemma_chunks_are_sent_in_order(chunks: Seq<usize>)
    ensures
        Task::Streaming.run(rounds(chunks)) == Task::Streaming,
        Task::Streaming.data_sent(rounds(chunks)) == chunks,
        !Task::Streaming.finishes(rounds(chunks)),
    decreases chunks.len(),
{
    let events = rounds(chunks);
    if chunks.len() == 0 {
        assert(Task::Streaming.data_sent(events) =~= chunks);
    } else {
        lemma_chunks_are_sent_in_order(chunks.skip(1));
        let rest = rounds(chunks.skip(1));
        assert(events.skip(1) =~= seq![TaskEvent::Sent] + rest);
        assert(events.skip(1).skip(1) =~= rest);
        assert(Task::Sending.run(events.skip(1)) == Task::Streaming.run(rest));
        assert(Task::Sending.data_sent(events.skip(1)) == Task::Streaming.data_sent(rest));
        assert(Task::Sending.finishes(events.skip(1)) == Task::Streaming.finishes(rest));
        assert(seq![chunks[0]] + chunks.skip(1) =~= chunks);
    }
}

/// Where nothing fails, the task sends every chunk of the body once and in
/// the order of the body, and then completes.
pub proof fn lemma_body_is_forwarded(chunks: Seq<usize>)
    ensures
        Task::Streaming.data_sent(smooth(chunks)) == chunks,
        Task::Streaming.run(smooth(chunks)) == Task::Done,
{
    let close = seq![TaskEvent::Body(BodyStep::End), TaskEvent::Finished];
    lemma_chunks_are_sent_in_order(chunks);
    lemma_events_in_sequence(Task::Streaming, rounds(chunks), close);
    lemma_two_events(Task::Streaming, close[0], close[1]);
    lemma_one_event(Task::Streaming, close[0]);
    lemma_one_event(Task::Finishing, close[1]);
    assert(close =~= seq![close[0], close[1]]);
    assert(Seq::<usize>::empty() + Seq::<usize>::empty() =~= Seq::<usize>::empty());
    assert(chunks + Seq::<usize>::empty() =~= chunks);
}

/// What one event does to a task.
proof fn lemma_one_event(task: Task, event: TaskEvent)
    ensures
        task.run(seq![event]) == task.next(event).0,
        task.data_sent(seq![event]) == (match task.next(event).1 {
            TaskAction::SendData(n) => seq![n],
            _ => Seq::<usize>::empty(),
        }),
        task.finishes(seq![event]) == (task.next(event).1 == TaskAction::Finish),
{
    let events = seq![event];
    let after = task.next(event).0;
    assert(events[0] == event);
    assert(events.skip(1).len() == 0);
    assert(after.run(events.skip(1)) == after);
    assert(after.data_sent(events.skip(1)) == Seq::<usize>::empty());
    assert(!after.finishes(events.skip(1)));
    match task.next(event).1 {
        TaskAction::SendData(n) => {
            assert(seq![n] + Seq::<usize>::empty() =~= seq![n]);
        },
        _ => {},
    }
}

/// What two events do to a task.
proof fn lemma_two_events(task: Task, first: TaskEvent, second: TaskEvent)
    ensures
        task.run(seq![first, second]) == task.next(first).0.next(second).0,
        task.data_sent(seq![first, second]) == task.data_sent(seq![first]) + task.next(
            first,
        ).0.data_sent(seq![second]),
        task.finishes(seq![first, second]) == (task.next(first).1 == TaskAction::Finish
            || task.next(first).0.next(second).1 == TaskAction::Finish),
{
    lemma_one_event(task, first);
    lemma_one_event(task.next(first).0, second);
    lemma_events_in_sequence(task, seq![first], seq![second]);
    assert(seq![first] + seq![second] =~= seq![first, second]);
}

/// A request task completes when nothing fails and only then. Whatever
/// fails, the task is given up at that point: the chunks that were sent
/// before stay sent, none follows, and the stream is not closed after a
/// failed read or a failed send. A chunk whose send fails is the last that
/// the task asks to send.
pub proof fn lemma_task_completes_only_when_nothing_fails(
    body: Body,
    chunks: Seq<usize>,
    course: Course,
)
    requires
        possible(body, chunks, course),
    ensures
        (Task::Heading { body }).run(events_of(body, chunks, course)) == (if course
            == Course::Smooth {
            Task::Done
        } else {
            Task::Failed
        }),
        (Task::Heading { body }).data_sent(events_of(body, chunks, course)) == (match course {
            Course::HeadFails => Seq::<usize>::empty(),
            Course::SendFails(n) => chunks.push(n),
            _ => chunks,
        }),
        (Task::Heading { body }).finishes(events_of(body, chunks, course)) == (course
            == Course::Smooth || course == Course::CloseFails),
{
    let task = Task::Heading { body };
    let events = events_of(body, chunks, course);
    if course == Course::HeadFails {
        lemma_one_event(task, TaskEvent::Failed);
    } else {
        let head = seq![TaskEvent::Sent];
        lemma_one_event(task, TaskEvent::Sent);
        match body {
            Body::Empty => {
                let close = if course == Course::Smooth {
                    TaskEvent::Finished
                } else {
                    TaskEvent::Failed
                };
                assert(events =~= head + seq![close]);
                lemma_events_in_sequence(task, head, seq![close]);
                lemma_one_event(Task::Finishing, close);
                assert(chunks =~= Seq::<usize>::empty());
                assert(Seq::<usize>::empty() + Seq::<usize>::empty() =~= Seq::<usize>::empty());
            },
            Body::File => {
                let last: Seq<TaskEvent> = match course {
                    Course::Smooth => seq![
                        TaskEvent::Body(BodyStep::End),
                        TaskEvent::Finished,
                    ],
                    Course::ReadFails => seq![TaskEvent::Body(BodyStep::Abort)],
                    Course::SendFails(n) => seq![
                        TaskEvent::Body(BodyStep::Chunk(n)),
                        TaskEvent::Failed,
                    ],
                    _ => seq![TaskEvent::Body(BodyStep::End), TaskEvent::Failed],
                };
                assert(events =~= head + (rounds(chunks) + last));
                lemma_events_in_sequence(task, head, rounds(chunks) + last);
                lemma_events_in_sequence(Task::Streaming, rounds(chunks), last);
                lemma_chunks_are_sent_in_order(chunks);
                match course {
                    Course::ReadFails => {
                        lemma_one_event(Task::Streaming, last[0]);
                        assert(last =~= seq![last[0]]);
                        assert(chunks + Seq::<usize>::empty() =~= chunks);
                    },
                    Course::SendFails(n) => {
                        lemma_two_events(Task::Streaming, last[0], last[1]);
                        lemma_one_event(Task::Streaming, last[0]);
                        lemma_one_event(Task::Sending, last[1]);
                        assert(last =~= seq![last[0], last[1]]);
                        assert(seq![n] + Seq::<usize>::empty() =~= seq![n]);
                        assert(chunks + seq![n] =~= chunks.push(n));
                        assert(Seq::<usize>::empty() + chunks.push(n) =~= chunks.push(n));
                    },
                    _ => {
                        lemma_two_events(Task::Streaming, last[0], last[1]);
                        lemma_one_event(Task::Streaming, last[0]);
                        lemma_one_event(Task::Finishing, last[1]);
                        assert(last =~= seq![last[0], last[1]]);
                        assert(Seq::<usize>::empty() + Seq::<usize>::empty()
                            =~= Seq::<usize>::empty());
                        assert(chunks + Seq::<usize>::empty() =~= chunks);
                    },
                }
                assert(Seq::<usize>::empty() + chunks =~= chunks);
            },
        }
    }
}

/// A file that is read to its end crosses QUIC whole: with the body stream
/// and the request task put together, the bytes that the task sends, chunk
/// after chunk, are the file, byte for byte, and the task completes.
pub proof fn lemma_file_crosses_quic_whole(file: Seq<u8>, reads: Seq<Seq<u8>>)
    requires
        reads_to_end(file, reads),
    ensures
        relay(Task::Streaming, BodyStream::Reading, reads) == (Task::Done, file),
    decreases reads.len(),
{
    let first = reads[0];
    if first.len() == 0 {
        assert(file =~= Seq::<u8>::empty());
    } else {
        lemma_file_crosses_quic_whole(file.skip(first.len() as int), reads.skip(1));
        assert(first.len() as usize == first.len());
        assert(first.take(first.len() as int) =~= first);
        assert(first + file.skip(first.len() as int) =~= file);
    }
}

/// Only its own endpoint can stop a listener: one that has not stopped yet
/// does not stop unless binding fails or the endpoint is closed.
pub proof fn lemma_only_the_endpoint_stops_the_listener(acceptor: Acceptor, events: Seq<Event>)
    requires
        acceptor.phase != Phase::Stopped,
        forall|i: int|
            0 <= i < events.len() ==> events[i] != Event::BindFailed && events[i] != Event::Closed,
    ensures
        acceptor.run(events).phase != Phase::Stopped,
    decreases events.len(),
{
    if events.len() > 0 {
        assert(events[0] != Event::BindFailed && events[0] != Event::Closed);
        assert forall|i: int| 0 <= i < events.skip(1).len() implies events.skip(1)[i]
            != Event::BindFailed && events.skip(1)[i] != Event::Closed by {
            assert(events.skip(1)[i] == events[i + 1]);
        }
        lemma_only_the_endpoint_stops_the_listener(acceptor.next(events[0]).0, events.skip(1));
    }
}

/// A task that has ended, well or badly, stays as it is and sends nothing
/// more, whatever is reported to it.
pub proof fn lemma_ended_task_is_silent(task: Task, events: Seq<TaskEvent>)
    requires
        task == Task::Done || task == Task::Failed,
    ensures
        task.run(events) == task,
        task.data_sent(events) == Seq::<usize>::empty(),
    decreases events.len(),
{
    if events.len() > 0 {
        lemma_ended_task_is_silent(task, events.skip(1));
    }
}

} // verus!
