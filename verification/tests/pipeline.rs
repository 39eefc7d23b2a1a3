//! Processor, dispatcher, ingress queue and server lifecycle behaviour,
//! including the end-to-end scenario.

use kickass_app_template::dispatcher::dispatch_outcome;
use kickass_app_template::events::{Endpoint, SocketEvent};
use kickass_app_template::ingress::{IngressQueue, PopOutcome};
use kickass_app_template::processor::RequestProcessor;
use kickass_app_template::protocol::{ClientMessages, ServerMessages};
use kickass_app_template::server::{LifecycleStage, SocketServer, UsageError};
use kickass_app_template::config::SocketServerConfig;

fn test_config() -> SocketServerConfig {
    SocketServerConfig { interface: "127.0.0.1".to_string(), port: 9758, workers: 1 }
}

fn endpoint(id: u64, addr: &str) -> Endpoint {
    Endpoint { id, addr: addr.as_bytes().to_vec() }
}

fn listening_server_with_capacity(capacity: usize) -> SocketServer {
    let mut server = SocketServer::new_with_queue_capacity(test_config(), capacity);
    server.set_processor().expect("first attach must succeed");
    server.start().expect("start must succeed");
    server
}

#[test]
fn counter_increases_across_ping_and_pang() {
    let mut processor = RequestProcessor::new();
    let e = endpoint(1, "127.0.0.1:50000");
    processor.process_event(SocketEvent::Connected { endpoint: e.clone() });

    for expected in 1..=5u64 {
        let msg = if expected % 2 == 0 { ClientMessages::Pang } else { ClientMessages::Ping };
        let out = processor
            .try_process(SocketEvent::Incoming { endpoint: e.clone(), client_message: msg })
            .expect("known endpoint");
        match out.response.expect("no failure") {
            ServerMessages::Pong(count) => assert_eq!(count, expected),
            ServerMessages::Pung(text) => {
                let text = String::from_utf8(text).expect("utf-8");
                assert!(text.contains(&format!(", {} times", expected)), "got: {}", text);
            }
            other => panic!("unexpected response {:?}", other),
        }
    }
}

#[test]
fn suppressed_events_produce_no_wire_output() {
    let mut processor = RequestProcessor::new();
    let e = endpoint(2, "127.0.0.1:50001");

    let out = processor.process_event(SocketEvent::Connected { endpoint: e.clone() });
    assert!(dispatch_outcome(out).is_none());

    let out = processor
        .try_process(SocketEvent::Incoming {
            endpoint: e.clone(),
            client_message: ClientMessages::Speechless,
        })
        .expect("known endpoint");
    assert!(dispatch_outcome(out).is_none());

    let out = processor.process_event(SocketEvent::Disconnected { endpoint: e });
    assert!(dispatch_outcome(out).is_none());
}

#[test]
fn unknown_endpoint_is_refused_by_processor() {
    let mut processor = RequestProcessor::new();
    let stranger = endpoint(99, "10.0.0.1:1234");
    let out = processor.try_process(SocketEvent::Incoming {
        endpoint: stranger,
        client_message: ClientMessages::Ping,
    });
    assert!(out.is_none(), "state access for an unknown endpoint must be refused loudly");
}

#[test]
fn unknown_endpoint_data_is_never_evented() {
    let mut server = listening_server_with_capacity(8);
    let stranger = endpoint(99, "10.0.0.1:1234");
    let replies = server.on_message(&stranger, b"Ping\n");
    assert!(replies.is_empty());
    assert!(matches!(server.next_event(), PopOutcome::Pending));
}

#[test]
fn full_queue_rejects_and_answers_too_busy() {
    let mut server = listening_server_with_capacity(2);
    let e = endpoint(3, "127.0.0.1:50002");

    assert!(server.on_accepted(&e), "first event fits");
    let replies = server.on_message(&e, b"Ping\nPing\nPing\n");

    // One Ping fit into the remaining slot; the other two were rejected and
    // each answered TooBusy immediately.
    assert_eq!(replies.len(), 2);
    for (id, data) in replies {
        assert_eq!(id, 3);
        assert_eq!(data, b"TooBusy\n".to_vec());
    }
}

#[test]
fn unparseable_line_is_answered_unknown_message() {
    let mut server = listening_server_with_capacity(8);
    let e = endpoint(4, "127.0.0.1:50003");
    server.on_accepted(&e);
    let replies = server.on_message(&e, b"Help\n");
    assert_eq!(replies.len(), 1);
    assert_eq!(replies[0].0, 4);
    assert_eq!(replies[0].1, b"UnknownMessage(\"Help\")\n".to_vec());
}

#[test]
fn close_still_delivers_everything_buffered() {
    let mut queue = IngressQueue::new(8);
    let e = endpoint(5, "127.0.0.1:50004");
    assert!(queue.try_push(SocketEvent::Connected { endpoint: e.clone() }));
    assert!(queue.try_push(SocketEvent::Incoming {
        endpoint: e.clone(),
        client_message: ClientMessages::Ping,
    }));
    assert!(queue.try_push(SocketEvent::Disconnected { endpoint: e }));

    queue.close();
    let drained = queue.drain();
    assert_eq!(drained.len(), 3, "everything buffered before close is still delivered");
    assert!(matches!(drained[0], SocketEvent::Connected { .. }));
    assert!(matches!(drained[1], SocketEvent::Incoming { .. }));
    assert!(matches!(drained[2], SocketEvent::Disconnected { .. }));
    assert!(matches!(queue.pop(), PopOutcome::EndOfStream));
}

#[test]
fn error_event_is_isolated_to_its_endpoint() {
    let mut processor = RequestProcessor::new();
    let e1 = endpoint(6, "127.0.0.1:50005");
    let e2 = endpoint(7, "127.0.0.1:50006");
    processor.process_event(SocketEvent::Connected { endpoint: e1.clone() });
    processor.process_event(SocketEvent::Connected { endpoint: e2.clone() });

    let failing = processor
        .try_process(SocketEvent::Incoming {
            endpoint: e1.clone(),
            client_message: ClientMessages::Error,
        })
        .expect("known endpoint");
    let write = dispatch_outcome(failing).expect("a failure is answered");
    assert_eq!(write.0, e1.id, "the failure is attributed to the failing endpoint");
    let text = String::from_utf8(write.1).unwrap();
    assert!(text.starts_with("ProcessorError(\""), "got: {}", text);

    let fine = processor
        .try_process(SocketEvent::Incoming {
            endpoint: e2.clone(),
            client_message: ClientMessages::Ping,
        })
        .expect("known endpoint");
    let write = dispatch_outcome(fine).expect("a pong is owed");
    assert_eq!(write.0, e2.id);
    assert_eq!(write.1, b"Pong(1)\n".to_vec());
}

#[test]
fn end_to_end_ping_ping_pang() {
    let mut server = listening_server_with_capacity(16);
    let mut processor = RequestProcessor::new();
    let e = endpoint(8, "127.0.0.1:54321");

    assert!(server.on_accepted(&e));
    let replies = server.on_message(&e, b"Ping\nPing\nPang\n");
    assert!(replies.is_empty(), "nothing rejected, nothing unparseable");

    let mut output: Vec<u8> = Vec::new();
    loop {
        match server.next_event() {
            PopOutcome::Item(event) => {
                let outcome = processor.try_process(event).expect("events follow the contract");
                if let Some((id, data)) = dispatch_outcome(outcome) {
                    assert_eq!(id, e.id);
                    output.extend_from_slice(&data);
                }
            }
            PopOutcome::Pending | PopOutcome::EndOfStream => break,
        }
    }

    let output = String::from_utf8(output).unwrap();
    assert_eq!(
        output,
        "Pong(1)\nPong(2)\nPung(\"`Pang` from 127.0.0.1:54321, 3 times\")\n"
    );
    assert!(output.contains('3'));
}

#[test]
fn processor_tracks_connection_state() {
    let mut processor = RequestProcessor::new();
    assert_eq!(processor.tracked_connections(), 0);
    let e = endpoint(20, "127.0.0.1:50020");
    processor.process_event(SocketEvent::Connected { endpoint: e.clone() });
    assert!(processor.knows(20));
    assert!(!processor.knows(21));
    assert_eq!(processor.tracked_connections(), 1);
    processor.process_event(SocketEvent::Disconnected { endpoint: e });
    assert!(!processor.knows(20));
    assert_eq!(processor.tracked_connections(), 0);
}

#[test]
fn queue_reports_its_state_and_rejects_when_full() {
    let mut queue = IngressQueue::new(2);
    assert_eq!(queue.capacity(), 2);
    assert_eq!(queue.len(), 0);
    assert!(!queue.is_closed());

    let e = endpoint(21, "127.0.0.1:50021");
    assert!(queue.try_push(SocketEvent::Connected { endpoint: e.clone() }));
    assert!(queue.try_push(SocketEvent::Incoming {
        endpoint: e.clone(),
        client_message: ClientMessages::Speechless,
    }));
    assert!(
        !queue.try_push(SocketEvent::Disconnected { endpoint: e }),
        "a full queue rejects instead of dropping silently"
    );
    assert_eq!(queue.len(), 2);

    queue.close();
    assert!(queue.is_closed());
    assert_eq!(queue.len(), 2, "closing drops nothing");
}

#[test]
fn lifecycle_walks_its_stages() {
    let mut server = SocketServer::new(test_config());
    assert_eq!(server.stage(), LifecycleStage::Idle);

    assert_eq!(server.start(), Err(UsageError::ProcessorMissing));
    server.set_processor().expect("first attach");
    assert_eq!(server.set_processor(), Err(UsageError::ProcessorAlreadyAttached));

    server.start().expect("attached and idle");
    assert_eq!(server.stage(), LifecycleStage::Listening);
    assert_eq!(server.start(), Err(UsageError::AlreadyStarted));

    let e1 = endpoint(10, "127.0.0.1:50010");
    let e2 = endpoint(11, "127.0.0.1:50011");
    server.on_accepted(&e1);
    server.on_accepted(&e2);
    assert_eq!(server.connection_count(), 2);
    assert!(server.is_connected(10));
    server.on_disconnected(&e1);
    assert_eq!(server.connection_count(), 1);
    assert!(!server.is_connected(10));

    let notifications = server.on_shutdown();
    assert_eq!(server.stage(), LifecycleStage::ShuttingDown);
    assert_eq!(notifications.len(), 1);
    assert_eq!(notifications[0].0, 11);
    assert_eq!(notifications[0].1, b"ShuttingDown\n".to_vec());
    assert_eq!(server.connection_count(), 0);

    // The drain still hands over the buffered Connected/Disconnected events.
    let drained = server.drain_events();
    assert_eq!(drained.len(), 3);

    server.mark_stopped();
    assert_eq!(server.stage(), LifecycleStage::Stopped);
}
