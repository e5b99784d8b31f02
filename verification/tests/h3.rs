use file_server_core::h3::{
    alpn_protocols, handle_request, server, Acceptor, Action, Connection, ConnectionAction,
    ConnectionEvent, Event, Phase, Stage, Task, TaskAction, TaskEvent, MAX_EARLY_DATA,
};
use file_server_core::service::{
    file_service, Answer, Body, BodyStep, BodyStream, Opened, ReadOutcome, Response, Status,
    CHUNK_CAPACITY,
};
use std::path::PathBuf;

/// Sends `response` as the driver of a request task does, with `file` as the
/// opened file, and returns what went out on the stream: whether the head was
/// sent, the data, and the task at its end.
fn send(response: &Response, file: &[u8], most: usize) -> (bool, Vec<u8>, Task) {
    let (mut task, mut action) = handle_request(response);
    let mut stream = BodyStream::new();
    let mut head = false;
    let mut data = Vec::new();
    let mut cursor = 0;
    let mut pending = 0;
    loop {
        let event = match action {
            TaskAction::SendHead => {
                head = true;
                TaskEvent::Sent
            }
            TaskAction::Pull => {
                let n = most.min(CHUNK_CAPACITY).min(file.len() - cursor);
                let (next, step) = stream.step(ReadOutcome::Bytes(n));
                stream = next;
                pending = n;
                TaskEvent::Body(step)
            }
            TaskAction::SendData(n) => {
                assert_eq!(n, pending);
                data.extend_from_slice(&file[cursor..cursor + n]);
                cursor += n;
                TaskEvent::Sent
            }
            TaskAction::Finish => TaskEvent::Finished,
            TaskAction::Complete | TaskAction::Abandon => return (head, data, task),
            TaskAction::Ignore => panic!("the task ignored an event of its own driver"),
        };
        let (next, then) = task.step(event);
        task = next;
        action = then;
    }
}

fn response_for(path: &str, root: &Option<PathBuf>, opened: bool) -> Response {
    match file_service(path, 4433, root) {
        Answer::Reply(response) => response,
        Answer::Open(pending) => {
            pending.opened(if opened { Opened::File } else { Opened::Failed })
        }
    }
}

#[test]
fn quic_offers_h3_only() {
    assert_eq!(alpn_protocols(), vec![b"h3".to_vec()]);
}

#[test]
fn quic_early_data_is_unbounded() {
    assert_eq!(MAX_EARLY_DATA, u32::MAX);
}

#[test]
fn quic_server_starts_by_binding() {
    let (acceptor, action) = server(4433);
    assert_eq!(acceptor, Acceptor { port: 4433, phase: Phase::Binding });
    assert_eq!(action, Action::Bind);
}

#[test]
fn quic_bind_failure_is_fatal() {
    let (acceptor, _) = server(4433);
    let (acceptor, action) = acceptor.step(Event::BindFailed);
    assert_eq!(acceptor.phase, Phase::Stopped);
    assert_eq!(action, Action::Exit { failed: true });
}

#[test]
fn quic_listener_spawns_a_connection_for_each_attempt() {
    let (acceptor, _) = server(4433);
    let (mut acceptor, action) = acceptor.step(Event::Bound);
    assert_eq!(action, Action::Listen);
    for _ in 0..5 {
        let (next, action) = acceptor.step(Event::Incoming);
        assert_eq!(action, Action::Spawn { port: 4433 });
        assert_eq!(next, Acceptor { port: 4433, phase: Phase::Listening });
        acceptor = next;
    }
}

#[test]
fn quic_listener_ends_cleanly_when_endpoint_closes() {
    let listening = Acceptor { port: 4433, phase: Phase::Listening };
    let (acceptor, action) = listening.step(Event::Closed);
    assert_eq!(acceptor.phase, Phase::Stopped);
    assert_eq!(action, Action::Exit { failed: false });
}

#[test]
fn quic_listener_ignores_what_has_no_meaning() {
    let binding = Acceptor { port: 1, phase: Phase::Binding };
    assert_eq!(binding.step(Event::Incoming), (binding, Action::Ignore));
    assert_eq!(binding.step(Event::Closed), (binding, Action::Ignore));
    let listening = Acceptor { port: 1, phase: Phase::Listening };
    assert_eq!(listening.step(Event::Bound), (listening, Action::Ignore));
    assert_eq!(listening.step(Event::BindFailed), (listening, Action::Ignore));
    let stopped = Acceptor { port: 1, phase: Phase::Stopped };
    for event in [Event::Bound, Event::BindFailed, Event::Incoming, Event::Closed] {
        assert_eq!(stopped.step(event), (stopped, Action::Ignore));
    }
}

#[test]
fn connection_starts_with_the_handshake() {
    let (connection, action) = Connection::new(4433);
    assert_eq!(connection, Connection { port: 4433, stage: Stage::Connecting });
    assert_eq!(action, ConnectionAction::Connect);
}

#[test]
fn failed_quic_handshake_drops_the_connection_only() {
    let (acceptor, _) = server(4433);
    let (acceptor, _) = acceptor.step(Event::Bound);
    let (acceptor, spawn) = acceptor.step(Event::Incoming);
    assert_eq!(spawn, Action::Spawn { port: 4433 });
    let (bad, _) = Connection::new(4433);
    let (bad, action) = bad.step(ConnectionEvent::HandshakeFailed);
    assert_eq!(bad.stage, Stage::Over);
    assert_eq!(action, ConnectionAction::Discard);
    // The listener has no event for it: the next attempt is taken as before.
    let (acceptor, spawn) = acceptor.step(Event::Incoming);
    assert_eq!(spawn, Action::Spawn { port: 4433 });
    assert_eq!(acceptor.phase, Phase::Listening);
    let (good, _) = Connection::new(4433);
    let (good, action) = good.step(ConnectionEvent::Established);
    assert_eq!(action, ConnectionAction::Accept);
    let (_, action) = good.step(ConnectionEvent::Request);
    assert_eq!(action, ConnectionAction::Dispatch { port: 4433 });
}

#[test]
fn connection_dispatches_every_request() {
    let (connection, _) = Connection::new(8443);
    let (mut connection, _) = connection.step(ConnectionEvent::Established);
    for _ in 0..4 {
        let (next, action) = connection.step(ConnectionEvent::Request);
        assert_eq!(action, ConnectionAction::Dispatch { port: 8443 });
        assert_eq!(next.stage, Stage::Serving);
        connection = next;
    }
    let (connection, action) = connection.step(ConnectionEvent::PeerClosed);
    assert_eq!(action, ConnectionAction::Close);
    assert_eq!(connection.stage, Stage::Over);
    assert_eq!(
        connection.step(ConnectionEvent::Request),
        (connection, ConnectionAction::Ignore)
    );
}

#[test]
fn broken_connection_is_dropped() {
    let serving = Connection { port: 1, stage: Stage::Serving };
    let (connection, action) = serving.step(ConnectionEvent::Broken);
    assert_eq!(action, ConnectionAction::Discard);
    assert_eq!(connection.stage, Stage::Over);
}

#[test]
fn connection_ignores_what_has_no_meaning() {
    let connecting = Connection { port: 1, stage: Stage::Connecting };
    for event in [ConnectionEvent::Request, ConnectionEvent::PeerClosed, ConnectionEvent::Broken] {
        assert_eq!(connecting.step(event), (connecting, ConnectionAction::Ignore));
    }
    let serving = Connection { port: 1, stage: Stage::Serving };
    for event in [ConnectionEvent::Established, ConnectionEvent::HandshakeFailed] {
        assert_eq!(serving.step(event), (serving, ConnectionAction::Ignore));
    }
}

#[test]
fn request_task_starts_with_the_head() {
    let response = response_for("/x", &None, false);
    assert_eq!(
        handle_request(&response),
        (Task::Heading { body: Body::Empty }, TaskAction::SendHead)
    );
    let root = Some(PathBuf::from("/srv"));
    let response = response_for("/x", &root, true);
    assert_eq!(
        handle_request(&response),
        (Task::Heading { body: Body::File }, TaskAction::SendHead)
    );
}

#[test]
fn teapot_over_quic_has_empty_body() {
    let response = response_for("/anything", &None, false);
    assert_eq!(response.status, Status::Teapot);
    let (head, data, task) = send(&response, b"never read", CHUNK_CAPACITY);
    assert!(head);
    assert!(data.is_empty());
    assert_eq!(task, Task::Done);
}

#[test]
fn traversal_over_quic_has_empty_body() {
    let root = Some(PathBuf::from("/srv"));
    let response = response_for("/../etc/passwd", &root, true);
    assert_eq!(response.status, Status::NotFound);
    let (head, data, task) = send(&response, b"never read", CHUNK_CAPACITY);
    assert!(head);
    assert!(data.is_empty());
    assert_eq!(task, Task::Done);
}

#[test]
fn round_trip_file_serving_over_quic() {
    let root = Some(PathBuf::from("/srv"));
    let response = response_for("/hello.txt", &root, true);
    assert_eq!(response.status.code(), 200);
    assert_eq!(response.alt_svc, "h3=\":4433\"");
    let (head, data, task) = send(&response, b"hi", CHUNK_CAPACITY);
    assert!(head);
    assert_eq!(data, b"hi");
    assert_eq!(task, Task::Done);
}

#[test]
fn large_file_chunking_over_quic() {
    let root = Some(PathBuf::from("/srv"));
    let response = response_for("/big.bin", &root, true);
    let size = 2 * CHUNK_CAPACITY + 17;
    let file: Vec<u8> = (0..size).map(|i| (i % 253) as u8).collect();
    let (_, data, task) = send(&response, &file, CHUNK_CAPACITY);
    assert_eq!(data.len(), size);
    assert!(data == file);
    assert_eq!(task, Task::Done);
}

#[test]
fn short_reads_over_quic_lose_nothing() {
    let root = Some(PathBuf::from("/srv"));
    let response = response_for("/f", &root, true);
    let file: Vec<u8> = (0..100u8).collect();
    let (_, data, task) = send(&response, &file, 7);
    assert_eq!(data, file);
    assert_eq!(task, Task::Done);
}

#[test]
fn read_error_after_chunks_gives_the_task_up() {
    let (task, _) = Task::Heading { body: Body::File }.step(TaskEvent::Sent);
    let mut task = task;
    let mut sent = Vec::new();
    let mut closed = false;
    let events = [
        TaskEvent::Body(BodyStep::Chunk(10)),
        TaskEvent::Sent,
        TaskEvent::Body(BodyStep::Chunk(20)),
        TaskEvent::Sent,
        TaskEvent::Body(BodyStep::Abort),
    ];
    for event in events {
        let (next, action) = task.step(event);
        task = next;
        match action {
            TaskAction::SendData(n) => sent.push(n),
            TaskAction::Finish => closed = true,
            _ => {}
        }
    }
    assert_eq!(sent, vec![10, 20]);
    assert!(!closed);
    assert_eq!(task, Task::Failed);
}

#[test]
fn failed_send_gives_the_task_up() {
    let mut task = Task::Streaming;
    let mut sent = Vec::new();
    let mut last = TaskAction::Ignore;
    let events = [
        TaskEvent::Body(BodyStep::Chunk(10)),
        TaskEvent::Sent,
        TaskEvent::Body(BodyStep::Chunk(20)),
        TaskEvent::Failed,
        TaskEvent::Body(BodyStep::Chunk(30)),
        TaskEvent::Finished,
    ];
    for event in events {
        let (next, action) = task.step(event);
        task = next;
        if let TaskAction::SendData(n) = action {
            sent.push(n);
        }
        assert_ne!(action, TaskAction::Finish);
        last = action;
    }
    assert_eq!(sent, vec![10, 20]);
    assert_eq!(last, TaskAction::Ignore);
    assert_eq!(task, Task::Failed);
}

#[test]
fn failed_close_gives_the_task_up() {
    let (task, action) = Task::Streaming.step(TaskEvent::Body(BodyStep::End));
    assert_eq!(action, TaskAction::Finish);
    assert_eq!(task.step(TaskEvent::Failed), (Task::Failed, TaskAction::Abandon));
}

#[test]
fn request_task_steps_through_a_file() {
    let task = Task::Heading { body: Body::File };
    let (task, action) = task.step(TaskEvent::Sent);
    assert_eq!((task, action), (Task::Streaming, TaskAction::Pull));
    let (task, action) = task.step(TaskEvent::Body(BodyStep::Chunk(2)));
    assert_eq!((task, action), (Task::Sending, TaskAction::SendData(2)));
    let (task, action) = task.step(TaskEvent::Sent);
    assert_eq!((task, action), (Task::Streaming, TaskAction::Pull));
    let (task, action) = task.step(TaskEvent::Body(BodyStep::End));
    assert_eq!((task, action), (Task::Finishing, TaskAction::Finish));
    let (task, action) = task.step(TaskEvent::Finished);
    assert_eq!((task, action), (Task::Done, TaskAction::Complete));
}

#[test]
fn request_task_is_given_up_on_any_failure() {
    let live = [
        Task::Heading { body: Body::Empty },
        Task::Heading { body: Body::File },
        Task::Streaming,
        Task::Sending,
        Task::Finishing,
    ];
    for task in live {
        assert_eq!(task.step(TaskEvent::Failed), (Task::Failed, TaskAction::Abandon));
    }
    assert_eq!(
        Task::Streaming.step(TaskEvent::Body(BodyStep::Abort)),
        (Task::Failed, TaskAction::Abandon)
    );
}

#[test]
fn ended_request_task_ignores_everything() {
    let events = [
        TaskEvent::Sent,
        TaskEvent::Body(BodyStep::Chunk(1)),
        TaskEvent::Body(BodyStep::End),
        TaskEvent::Body(BodyStep::Abort),
        TaskEvent::Finished,
        TaskEvent::Failed,
    ];
    for event in events {
        assert_eq!(Task::Done.step(event), (Task::Done, TaskAction::Ignore));
        assert_eq!(Task::Failed.step(event), (Task::Failed, TaskAction::Ignore));
    }
}

#[test]
fn request_task_ignores_what_has_no_meaning() {
    let heading = Task::Heading { body: Body::File };
    assert_eq!(heading.step(TaskEvent::Finished), (heading, TaskAction::Ignore));
    assert_eq!(
        heading.step(TaskEvent::Body(BodyStep::End)),
        (heading, TaskAction::Ignore)
    );
    assert_eq!(Task::Streaming.step(TaskEvent::Sent), (Task::Streaming, TaskAction::Ignore));
    assert_eq!(
        Task::Sending.step(TaskEvent::Body(BodyStep::Chunk(3))),
        (Task::Sending, TaskAction::Ignore)
    );
    assert_eq!(Task::Finishing.step(TaskEvent::Sent), (Task::Finishing, TaskAction::Ignore));
}

#[test]
fn failed_request_leaves_connection_and_siblings_alone() {
    let serving = Connection { port: 4433, stage: Stage::Serving };
    let (serving, first) = serving.step(ConnectionEvent::Request);
    let (serving, second) = serving.step(ConnectionEvent::Request);
    assert_eq!(first, ConnectionAction::Dispatch { port: 4433 });
    assert_eq!(second, ConnectionAction::Dispatch { port: 4433 });
    let root = Some(PathBuf::from("/srv"));
    let response = response_for("/hello.txt", &root, true);
    // The first task fails while it sends its head.
    let (broken, _) = handle_request(&response);
    let (broken, action) = broken.step(TaskEvent::Failed);
    assert_eq!((broken, action), (Task::Failed, TaskAction::Abandon));
    // The second one completes, and the connection takes a third request.
    let (_, data, task) = send(&response, b"hi", CHUNK_CAPACITY);
    assert_eq!(data, b"hi");
    assert_eq!(task, Task::Done);
    let (serving, third) = serving.step(ConnectionEvent::Request);
    assert_eq!(third, ConnectionAction::Dispatch { port: 4433 });
    assert_eq!(serving.stage, Stage::Serving);
}
