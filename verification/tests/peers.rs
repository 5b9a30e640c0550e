use rustydomo::client::{
    receive_and_check_broker_response, send_request, ClientRequest, ClientRequestState,
};
use rustydomo::data_structures::SocketType;
use rustydomo::errors::RustydomoError;
use rustydomo::handlers::{handle_client_messages, handle_worker_messages, Outgoing};
use rustydomo::majordomo_context::MajordomoContext;
use rustydomo::monitor::{
    classify_event, handle_client_monitor_messages, handle_monitor_message,
    handle_worker_monitor_messages, monitored_events, note_event, stimulated_sockets,
    MessageHelper, MonitorEvent, MonitorNote,
};
use rustydomo::text::{decimal_string, display_content, identity_string};
use rustydomo::worker::{
    receive_and_handle_broker_request, Worker, WorkerAction, WorkerRequestState,
};

fn frames(parts: &[&[u8]]) -> Vec<Vec<u8>> {
    parts.iter().map(|part| part.to_vec()).collect()
}

#[test]
fn client_request_frames() {
    assert_eq!(
        send_request("echo", &frames(&[b"a", b"", b"b"])),
        frames(&[b"MDPC02", &[1], b"echo", b"a", b"", b"b"])
    );
    assert_eq!(send_request("", &frames(&[])), frames(&[b"MDPC02", &[1], b""]));
}

#[test]
fn client_reads_replies() {
    let partial =
        receive_and_check_broker_response(&frames(&[b"MDPC02", &[2], b"a", b"b"])).unwrap();
    assert_eq!(partial.state, ClientRequestState::PARTIAL);
    assert_eq!(partial.payload, frames(&[b"a", b"b"]));
    let last = receive_and_check_broker_response(&frames(&[b"MDPC02", &[3]])).unwrap();
    assert_eq!(last.state, ClientRequestState::FINAL);
    assert!(last.payload.is_empty());
    assert_eq!(ClientRequestState::PARTIAL.as_byte(), 2);
    assert_eq!(ClientRequestState::FINAL.as_byte(), 3);
    for message in [
        frames(&[]),
        frames(&[b"MDPC02"]),
        frames(&[b"MDPW02", &[3]]),
        frames(&[b"MDPC02", &[1]]),
        frames(&[b"MDPC02", &[4], b"a"]),
        frames(&[b"MDPC02", b""]),
        frames(&[b"MDPC02", &[3, 3]]),
    ] {
        assert!(receive_and_check_broker_response(&message).is_none());
    }
}

#[test]
fn client_request_ends_with_the_final_reply() {
    let mut request = ClientRequest::new();
    assert!(!request.is_over());
    assert!(request.next(&frames(&[b"junk"])).is_none());
    assert!(!request.is_over());
    let first = request.next(&frames(&[b"MDPC02", &[2], b"a"])).unwrap();
    assert_eq!(first.state, ClientRequestState::PARTIAL);
    assert!(!request.is_over());
    let last = request.next(&frames(&[b"MDPC02", &[3], b"b"])).unwrap();
    assert_eq!(last.state, ClientRequestState::FINAL);
    assert_eq!(last.payload, frames(&[b"b"]));
    assert!(request.is_over());
    assert!(request.next(&frames(&[b"MDPC02", &[2], b"a"])).is_none());
    assert!(request.is_over());
}

#[test]
fn worker_messages() {
    let mut worker = Worker::new("echo".to_string(), 5);
    assert_eq!(worker.register_to_broker(), frames(&[b"MDPW02", &[1], b"echo"]));
    assert_eq!(worker.send_heartbeat(), frames(&[b"MDPW02", &[5]]));
    assert_eq!(worker.disconnect_from_broker(), frames(&[b"MDPW02", &[6]]));
    for (state, byte) in [
        (WorkerRequestState::READY, 1u8),
        (WorkerRequestState::REQUEST, 2),
        (WorkerRequestState::PARTIAL, 3),
        (WorkerRequestState::FINAL, 4),
        (WorkerRequestState::HEARTBEAT, 5),
        (WorkerRequestState::DISCONNECT, 6),
    ] {
        assert_eq!(state.as_byte(), byte);
    }
}

#[test]
fn worker_reads_the_broker() {
    let request =
        receive_and_handle_broker_request(&frames(&[b"MDPW02", &[2], &[7], b"", b"x"])).unwrap();
    assert_eq!(request.state, WorkerRequestState::REQUEST);
    assert_eq!(request.payload, Some(frames(&[&[7], b"", b"x"])));
    let heartbeat = receive_and_handle_broker_request(&frames(&[b"MDPW02", &[5]])).unwrap();
    assert_eq!(heartbeat.state, WorkerRequestState::HEARTBEAT);
    assert_eq!(heartbeat.payload, None);
    let leave = receive_and_handle_broker_request(&frames(&[b"MDPW02", &[6]])).unwrap();
    assert_eq!(leave.state, WorkerRequestState::DISCONNECT);
    assert_eq!(leave.payload, None);
    for message in [
        frames(&[]),
        frames(&[b"MDPW02"]),
        frames(&[b"MDPC02", &[2]]),
        frames(&[b"MDPW02", &[1], b"svc"]),
        frames(&[b"MDPW02", &[3]]),
        frames(&[b"MDPW02", &[4]]),
        frames(&[b"MDPW02", &[7]]),
        frames(&[b"MDPW02", b""]),
        frames(&[b"MDPW02", &[2, 2]]),
    ] {
        assert!(receive_and_handle_broker_request(&message).is_none());
    }
}

#[test]
fn worker_processes_messages() {
    let mut worker = Worker::new("echo".to_string(), 0);
    assert!(!worker.check_broker_connection_expired(1000));
    assert!(worker.check_broker_connection_expired(1001));
    assert!(matches!(worker.process(&frames(&[b"MDPW02", &[5]]), 700), WorkerAction::Nothing));
    assert!(!worker.check_broker_connection_expired(1700));
    assert!(worker.check_broker_connection_expired(1701));
    assert!(!worker.check_broker_connection_expired(3));
    let task = frames(&[b"MDPW02", &[2], &[7], b"", b"x"]);
    match worker.process(&task, 800) {
        WorkerAction::HandleTask(payload) => assert_eq!(payload, frames(&[&[7], b"", b"x"])),
        other => panic!("not handled: {:?}", other),
    }
    assert!(!worker.check_broker_connection_expired(1700));
    assert!(matches!(worker.process(&frames(&[b"MDPW02", &[6]]), 900), WorkerAction::Nothing));
    assert!(matches!(worker.process(&task, 900), WorkerAction::Refused));
    assert!(matches!(worker.process(&frames(&[b"junk"]), 900), WorkerAction::Nothing));
    worker.register_to_broker();
    assert!(matches!(worker.process(&task, 900), WorkerAction::HandleTask(_)));
}

#[test]
fn request_travels_from_client_to_worker_and_back() {
    let mut ctx = MajordomoContext::new();
    let mut worker = Worker::new("echo".to_string(), 0);
    let worker_id: &[u8] = &[0, 1, 1, 1, 1];
    let client_id: &[u8] = &[0, 2, 2, 2, 2];
    let mut announce = vec![worker_id.to_vec()];
    announce.extend(worker.register_to_broker());
    assert!(matches!(handle_worker_messages(&announce, &mut ctx, 0), Ok(Outgoing::Nothing)));
    let body = frames(&[b"one", b"", b"two"]);
    let mut asked = vec![client_id.to_vec()];
    asked.extend(send_request("echo", &body));
    let sent = match handle_client_messages(&asked, &mut ctx) {
        Ok(Outgoing::ToWorker(message)) => message,
        other => panic!("not sent: {:?}", other),
    };
    assert_eq!(sent[0], worker_id.to_vec());
    let mut expected = frames(&[b"MDPW02", &[2], client_id, b""]);
    expected.extend(body.clone());
    assert_eq!(sent[1..].to_vec(), expected);
    let payload = match worker.process(&sent[1..].to_vec(), 1) {
        WorkerAction::HandleTask(payload) => payload,
        other => panic!("not handled: {:?}", other),
    };
    let mut answer = frames(&[worker_id, b"MDPW02", &[4]]);
    answer.extend(payload);
    let reply = match handle_worker_messages(&answer, &mut ctx, 2) {
        Ok(Outgoing::ToClient(message)) => message,
        other => panic!("not relayed: {:?}", other),
    };
    assert_eq!(reply[0], client_id.to_vec());
    let mut request = ClientRequest::new();
    let result = request.next(&reply[1..].to_vec()).unwrap();
    assert_eq!(result.state, ClientRequestState::FINAL);
    assert_eq!(result.payload, body);
    assert!(request.is_over());
}

#[test]
fn monitor_events() {
    assert_eq!(monitored_events(), 0x1200);
    assert_eq!(classify_event(0x1000), Some(MonitorEvent::HandshakeSucceeded));
    assert_eq!(classify_event(0x0200), Some(MonitorEvent::Disconnected));
    assert_eq!(classify_event(0x0020), None);
    assert_eq!(classify_event(0), None);
    assert_eq!(classify_event(0xffff), None);
}

#[test]
fn monitor_numbers_are_read_in_the_order_of_the_machine() {
    let helper = MessageHelper { m: vec![0x34, 0x12, 0xff, 0xff] };
    assert_eq!(helper.try_into_u16(), Ok(u16::from_ne_bytes([0x34, 0x12])));
    let short = MessageHelper { m: vec![0x34] };
    assert_eq!(
        short.try_into_u16(),
        Err(RustydomoError::ConversionError("Failed to convert value to u16".to_string()))
    );
}

fn text(note: MonitorNote) -> (bool, String) {
    match note {
        MonitorNote::Info(line) => (true, line),
        MonitorNote::Debug(line) => (false, line),
    }
}

#[test]
fn monitor_notes() {
    assert_eq!(
        text(note_event("Client", Some(0x1000), b"tcp://127.0.0.1:5000")),
        (true, "Client accepted on tcp://127.0.0.1:5000".to_string())
    );
    assert_eq!(
        text(note_event("Worker", Some(0x0200), &[0xff])),
        (true, "Worker disconnected from <unknown>".to_string())
    );
    assert_eq!(
        text(note_event("Worker", Some(32), b"x")),
        (false, "Unrecognized event : 32".to_string())
    );
    assert_eq!(
        text(note_event("Worker", None, b"x")),
        (false, "Failed to convert event_id to u16".to_string())
    );
}

#[test]
fn monitor_messages() {
    let accepted = 0x1000u16.to_ne_bytes();
    let gone = 0x0200u16.to_ne_bytes();
    let event = frames(&[&[accepted[0], accepted[1], 0, 0, 0, 0], b"tcp://1.2.3.4:5"]);
    assert_eq!(
        text(handle_client_monitor_messages(&event).unwrap()),
        (true, "Client accepted on tcp://1.2.3.4:5".to_string())
    );
    let event = frames(&[&[gone[0], gone[1], 200, 0, 0, 0], b"tcp://1.2.3.4:5", b"more"]);
    assert_eq!(
        text(handle_worker_monitor_messages(&event).unwrap()),
        (true, "Worker disconnected from tcp://1.2.3.4:5".to_string())
    );
    assert_eq!(
        text(handle_monitor_message("Peer", &frames(&[&[1], b"x"])).unwrap()),
        (false, "Failed to convert event_id to u16".to_string())
    );
    assert_eq!(
        handle_monitor_message("Peer", &frames(&[&[0, 16]])).unwrap_err(),
        RustydomoError::MalformedMessage
    );
}

#[test]
fn sockets_with_a_message_waiting() {
    assert_eq!(
        stimulated_sockets(&vec![true, false, true, true]),
        Ok(vec![
            SocketType::ClientSocket,
            SocketType::ServiceSocket,
            SocketType::WorkerMonitorSocket
        ])
    );
    assert_eq!(stimulated_sockets(&vec![]), Ok(vec![]));
    assert_eq!(stimulated_sockets(&vec![false, true]), Ok(vec![SocketType::ClientMonitorSocket]));
    assert_eq!(stimulated_sockets(&vec![false, false, false, false, false]), Ok(vec![]));
    assert_eq!(
        stimulated_sockets(&vec![true, true, true, true, false, true]),
        Err(RustydomoError::Unknown("Unknown socket type : 5".to_string()))
    );
}

#[test]
fn socket_places() {
    assert_eq!(SocketType::try_from(0), Ok(SocketType::ClientSocket));
    assert_eq!(SocketType::try_from(1), Ok(SocketType::ClientMonitorSocket));
    assert_eq!(SocketType::try_from(2), Ok(SocketType::ServiceSocket));
    assert_eq!(SocketType::try_from(3), Ok(SocketType::WorkerMonitorSocket));
    assert_eq!(
        SocketType::try_from(4),
        Err(RustydomoError::Unknown("Unknown socket type : 4".to_string()))
    );
    assert_eq!(
        SocketType::try_from(usize::MAX),
        Err(RustydomoError::Unknown(format!("Unknown socket type : {}", usize::MAX)))
    );
    assert_eq!(SocketType::WorkerMonitorSocket.index(), 3);
    assert_eq!(SocketType::ClientSocket.index(), 0);
}

#[test]
fn numbers_in_decimal() {
    assert_eq!(decimal_string(0), "0");
    assert_eq!(decimal_string(7), "7");
    assert_eq!(decimal_string(10), "10");
    assert_eq!(decimal_string(1905), "1905");
    assert_eq!(decimal_string(u64::MAX), "18446744073709551615");
    assert_eq!(identity_string(&[]), "Identity : []");
    assert_eq!(identity_string(&[0]), "Identity : [0]");
    assert_eq!(identity_string(&[0, 255, 16, 9]), "Identity : [0, 255, 16, 9]");
}

#[test]
fn content_in_hexadecimal() {
    assert_eq!(display_content(&[]), "");
    assert_eq!(display_content(&[0]), "00");
    assert_eq!(display_content(&[0x0a, 0xff, 0x10, 0x9c]), "0AFF109C");
    assert_eq!(display_content(b"MDPW02"), "4D4450573032");
}

#[test]
fn faults_in_words() {
    let cases = [
        (
            RustydomoError::SocketCreationError("no".to_string()),
            "Error during socket creation : no",
        ),
        (RustydomoError::SocketBindingError("no".to_string()), "Error during socket binding : no"),
        (
            RustydomoError::MonitorCreationError("no".to_string()),
            "Failed to create monitor for connection : no",
        ),
        (RustydomoError::CommunicationError("no".to_string()), "Error during communication : no"),
        (RustydomoError::ProtocolMismatch, "Unrecognized protocol frame received"),
        (RustydomoError::UnrecognizedCommandType(200), "Unrecognized command : 200"),
        (RustydomoError::MalformedMessage, "Malformed message received"),
        (
            RustydomoError::ServiceNotAvailable("echo".to_string()),
            "Requested service does not exist : 'echo'",
        ),
        (
            RustydomoError::ConversionError("no".to_string()),
            "Failed to during value conversion: no",
        ),
        (RustydomoError::Unknown("no".to_string()), "Unknown error occured : 'no'"),
    ];
    for (fault, words) in cases {
        assert_eq!(fault.to_string(), words);
        assert_eq!(fault.clone(), fault);
    }
}
