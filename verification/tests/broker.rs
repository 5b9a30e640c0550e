use rustydomo::errors::RustydomoError;
use rustydomo::frames::{parse_client_request, parse_service_name, parse_worker_command};
use rustydomo::handlers::{
    handle_client_messages, handle_worker_messages, handle_worker_partial_final_answer, Outgoing,
};
use rustydomo::data_structures::{ClientInteractionType, WorkerInteractionType};
use rustydomo::majordomo_context::MajordomoContext;
use rustydomo::mmi_handler::{handle_mmi_services, is_mmi_service};

const MDPC: &[u8] = b"MDPC02";
const MDPW: &[u8] = b"MDPW02";

fn frames(parts: &[&[u8]]) -> Vec<Vec<u8>> {
    parts.iter().map(|part| part.to_vec()).collect()
}

fn ready(ctx: &mut MajordomoContext, worker: &[u8], service: &[u8], now: u64) {
    let message = frames(&[worker, MDPW, &[1], service]);
    assert!(matches!(handle_worker_messages(&message, ctx, now), Ok(Outgoing::Nothing)));
}

fn to_worker(outcome: Result<Outgoing, RustydomoError>) -> Vec<Vec<u8>> {
    match outcome {
        Ok(Outgoing::ToWorker(message)) => message,
        other => panic!("not sent to a worker: {:?}", other),
    }
}

fn to_client(outcome: Result<Outgoing, RustydomoError>) -> Vec<Vec<u8>> {
    match outcome {
        Ok(Outgoing::ToClient(message)) => message,
        other => panic!("not sent to a client: {:?}", other),
    }
}

#[test]
fn happy_path() {
    let mut ctx = MajordomoContext::new();
    let w1: &[u8] = &[0, 1, 2, 3, 4];
    let c1: &[u8] = &[0, 9, 9, 9, 9];
    ready(&mut ctx, w1, b"echo", 0);
    let request = frames(&[c1, MDPC, &[1], b"echo", b"hello"]);
    let sent = to_worker(handle_client_messages(&request, &mut ctx));
    assert_eq!(sent, frames(&[w1, MDPW, &[2], c1, b"", b"hello"]));
    let mut answer = vec![w1.to_vec(), MDPW.to_vec(), vec![4]];
    answer.extend_from_slice(&sent[3..]);
    let reply = to_client(handle_worker_messages(&answer, &mut ctx, 10));
    assert_eq!(reply, frames(&[c1, MDPC, &[3], b"hello"]));
}

#[test]
fn round_robin() {
    let mut ctx = MajordomoContext::new();
    ready(&mut ctx, &[0, 1], b"svc", 0);
    ready(&mut ctx, &[0, 2], b"svc", 0);
    ready(&mut ctx, &[0, 3], b"svc", 0);
    let request = frames(&[&[7], MDPC, &[1], b"svc", b"x"]);
    for worker in [1u8, 2, 3, 1] {
        let sent = to_worker(handle_client_messages(&request, &mut ctx));
        assert_eq!(sent[0], vec![0, worker]);
    }
}

#[test]
fn expiration() {
    let mut ctx = MajordomoContext::new();
    ready(&mut ctx, &[0, 1], b"svc", 0);
    ctx.check_expired_workers(1000);
    assert!(ctx.can_handle_service("svc"));
    ctx.check_expired_workers(1001);
    assert!(!ctx.can_handle_service("svc"));
    let request = frames(&[&[7], MDPC, &[1], b"svc", b"x"]);
    assert_eq!(
        handle_client_messages(&request, &mut ctx).unwrap_err(),
        RustydomoError::ServiceNotAvailable("svc".to_string())
    );
    let ask = frames(&[&[7], MDPC, &[1], b"mmi.service", b"svc"]);
    let reply = to_client(handle_client_messages(&ask, &mut ctx));
    assert_eq!(reply, frames(&[&[7], MDPC, &[3], b"mmi.service", b"404"]));
}

#[test]
fn heartbeat_refresh() {
    let mut ctx = MajordomoContext::new();
    ready(&mut ctx, &[0, 1], b"svc", 0);
    let heartbeat = frames(&[&[0, 1], MDPW, &[5]]);
    assert!(matches!(handle_worker_messages(&heartbeat, &mut ctx, 500), Ok(Outgoing::Nothing)));
    ctx.check_expired_workers(1001);
    assert!(ctx.can_handle_service("svc"));
    assert_eq!(ctx.all()[0].last_activity, 500);
    ctx.check_expired_workers(1501);
    assert!(!ctx.can_handle_service("svc"));
}

#[test]
fn mmi_service_present() {
    let mut ctx = MajordomoContext::new();
    ready(&mut ctx, &[0, 1], b"svc", 0);
    ready(&mut ctx, &[0, 2], b"svc", 0);
    let ask = frames(&[&[7], MDPC, &[1], b"mmi.service", b"svc"]);
    let reply = to_client(handle_client_messages(&ask, &mut ctx));
    assert_eq!(reply, frames(&[&[7], MDPC, &[3], b"mmi.service", b"200"]));
    assert_eq!(ctx.next_worker("svc").unwrap().value, vec![0, 1]);
}

#[test]
fn protocol_mismatch() {
    let mut ctx = MajordomoContext::new();
    ready(&mut ctx, &[0, 1], b"svc", 0);
    let wrong = frames(&[&[7], b"MDPXYZ", &[1], b"svc"]);
    assert_eq!(
        handle_client_messages(&wrong, &mut ctx).unwrap_err(),
        RustydomoError::ProtocolMismatch
    );
    let right = frames(&[&[7], MDPC, &[1], b"svc"]);
    let sent = to_worker(handle_client_messages(&right, &mut ctx));
    assert_eq!(sent, frames(&[&[0, 1], MDPW, &[2], &[7], b""]));
}

#[test]
fn client_message_faults() {
    let mut ctx = MajordomoContext::new();
    ready(&mut ctx, &[1], b"svc", 0);
    let cases: Vec<(Vec<Vec<u8>>, RustydomoError)> = vec![
        (frames(&[]), RustydomoError::MalformedMessage),
        (frames(&[&[7]]), RustydomoError::MalformedMessage),
        (frames(&[b""]), RustydomoError::MalformedMessage),
        (frames(&[b"", MDPW, &[1], b"svc"]), RustydomoError::ProtocolMismatch),
        (frames(&[&[7], MDPW, &[1], b"svc"]), RustydomoError::ProtocolMismatch),
        (frames(&[&[7], b"MDPC0", &[1], b"svc"]), RustydomoError::ProtocolMismatch),
        (frames(&[&[7], MDPC]), RustydomoError::MalformedMessage),
        (frames(&[&[7], MDPC, b"", b"svc"]), RustydomoError::MalformedMessage),
        (frames(&[&[7], MDPC, &[1, 1], b"svc"]), RustydomoError::MalformedMessage),
        (frames(&[&[7], MDPC, &[2], b"svc"]), RustydomoError::UnrecognizedCommandType(2)),
        (frames(&[&[7], MDPC, &[0], b"svc"]), RustydomoError::UnrecognizedCommandType(0)),
        (frames(&[&[7], MDPC, &[255]]), RustydomoError::UnrecognizedCommandType(255)),
        (frames(&[&[7], MDPC, &[1]]), RustydomoError::MalformedMessage),
        (frames(&[&[7], MDPC, &[1], b""]), RustydomoError::MalformedMessage),
        (frames(&[&[7], MDPC, &[1], b"sv\n"]), RustydomoError::MalformedMessage),
        (frames(&[&[7], MDPC, &[1], &[0xc3, 0xa9]]), RustydomoError::MalformedMessage),
        (
            frames(&[&[7], MDPC, &[1], b"none"]),
            RustydomoError::ServiceNotAvailable("none".to_string()),
        ),
    ];
    for (message, fault) in cases {
        assert_eq!(parse_client_request(&message).err(), {
            if matches!(fault, RustydomoError::ServiceNotAvailable(_)) {
                None
            } else {
                Some(fault.clone())
            }
        });
        assert_eq!(handle_client_messages(&message, &mut ctx).unwrap_err(), fault);
    }
    assert_eq!(ctx.next_worker("svc").unwrap().value, vec![1]);
}

#[test]
fn identities_of_any_length_are_taken() {
    let mut ctx = MajordomoContext::new();
    let long: Vec<u8> = (0..=255u8).chain(0..=9u8).collect();
    ready(&mut ctx, b"", b"svc", 0);
    ready(&mut ctx, &long, b"svc", 1);
    assert_eq!(ctx.all().len(), 2);
    let request = frames(&[b"", MDPC, &[1], b"svc", b"x"]);
    let sent = to_worker(handle_client_messages(&request, &mut ctx));
    assert_eq!(sent, frames(&[b"", MDPW, &[2], b"", b"", b"x"]));
    let request = frames(&[&long, MDPC, &[1], b"svc"]);
    let sent = to_worker(handle_client_messages(&request, &mut ctx));
    assert_eq!(sent, frames(&[&long, MDPW, &[2], &long, b""]));
    let answer = frames(&[b"", MDPW, &[4], &long, b"", b"y"]);
    let reply = to_client(handle_worker_messages(&answer, &mut ctx, 7));
    assert_eq!(reply, frames(&[&long, MDPC, &[3], b"y"]));
    assert_eq!(ctx.all()[0].identity.value, Vec::<u8>::new());
    assert_eq!(ctx.all()[0].last_activity, 7);
    let leave = frames(&[b"", MDPW, &[6]]);
    assert!(matches!(handle_worker_messages(&leave, &mut ctx, 8), Ok(Outgoing::Nothing)));
    assert_eq!(ctx.all().len(), 1);
}

#[test]
fn client_request_is_parsed() {
    let request =
        parse_client_request(&frames(&[&[7, 8], MDPC, &[1], b"a b~", b"one", b"", b"two"]))
            .unwrap();
    assert_eq!(request.client.value, vec![7, 8]);
    assert_eq!(request.service_name, "a b~");
    assert_eq!(request.body, frames(&[b"one", b"", b"two"]));
}

#[test]
fn service_names_are_printable_ascii() {
    assert_eq!(parse_service_name(b"echo"), Ok("echo".to_string()));
    assert_eq!(parse_service_name(b" ~"), Ok(" ~".to_string()));
    assert_eq!(parse_service_name(b""), Err(RustydomoError::MalformedMessage));
    assert_eq!(parse_service_name(&[0x1f]), Err(RustydomoError::MalformedMessage));
    assert_eq!(parse_service_name(&[0x7f]), Err(RustydomoError::MalformedMessage));
    assert_eq!(parse_service_name(&[b'a', 0x80]), Err(RustydomoError::MalformedMessage));
}

#[test]
fn worker_message_faults() {
    let mut ctx = MajordomoContext::new();
    ready(&mut ctx, &[1], b"svc", 0);
    let cases: Vec<(Vec<Vec<u8>>, RustydomoError)> = vec![
        (frames(&[]), RustydomoError::MalformedMessage),
        (frames(&[&[1]]), RustydomoError::MalformedMessage),
        (frames(&[b""]), RustydomoError::MalformedMessage),
        (frames(&[b"", MDPC, &[5]]), RustydomoError::ProtocolMismatch),
        (frames(&[&[1], MDPC, &[5]]), RustydomoError::ProtocolMismatch),
        (frames(&[&[1], MDPW]), RustydomoError::MalformedMessage),
        (frames(&[&[1], MDPW, b""]), RustydomoError::MalformedMessage),
        (frames(&[&[1], MDPW, &[5, 5]]), RustydomoError::MalformedMessage),
        (frames(&[&[1], MDPW, &[0]]), RustydomoError::UnrecognizedCommandType(0)),
        (frames(&[&[1], MDPW, &[7]]), RustydomoError::UnrecognizedCommandType(7)),
        (frames(&[&[2], MDPW, &[1]]), RustydomoError::MalformedMessage),
        (frames(&[&[2], MDPW, &[1], b""]), RustydomoError::MalformedMessage),
        (frames(&[&[2], MDPW, &[1], b"svc", b"x"]), RustydomoError::MalformedMessage),
        (frames(&[&[2], MDPW, &[1], &[0xff]]), RustydomoError::MalformedMessage),
        (frames(&[&[1], MDPW, &[5], b"x"]), RustydomoError::MalformedMessage),
        (frames(&[&[1], MDPW, &[6], b"x"]), RustydomoError::MalformedMessage),
        (frames(&[&[1], MDPW, &[3]]), RustydomoError::MalformedMessage),
        (frames(&[&[1], MDPW, &[3], b"", b"x"]), RustydomoError::MalformedMessage),
        (frames(&[&[1], MDPW, &[4], &[7], b"x"]), RustydomoError::MalformedMessage),
    ];
    for (message, fault) in cases {
        assert_eq!(handle_worker_messages(&message, &mut ctx, 0).unwrap_err(), fault);
    }
    let all = ctx.all();
    assert_eq!(all.len(), 1);
    assert_eq!(all[0].identity.value, vec![1]);
}

#[test]
fn worker_command_is_parsed() {
    let command = parse_worker_command(&frames(&[&[0, 5], MDPW, &[6], b"rest"])).unwrap();
    assert_eq!(command.worker.value, vec![0, 5]);
    assert_eq!(command.kind, WorkerInteractionType::Disconnect);
    for (byte, kind) in [
        (1u8, WorkerInteractionType::Ready),
        (2, WorkerInteractionType::Request),
        (3, WorkerInteractionType::Partial),
        (4, WorkerInteractionType::Final),
        (5, WorkerInteractionType::Heartbeat),
        (6, WorkerInteractionType::Disconnect),
    ] {
        assert_eq!(WorkerInteractionType::from_byte(byte), Some(kind));
        assert_eq!(kind.as_byte(), byte);
    }
    assert_eq!(WorkerInteractionType::from_byte(0), None);
    assert_eq!(WorkerInteractionType::from_byte(7), None);
    for (byte, kind) in [
        (1u8, ClientInteractionType::Request),
        (2, ClientInteractionType::Partial),
        (3, ClientInteractionType::Final),
    ] {
        assert_eq!(ClientInteractionType::from_byte(byte), Some(kind));
        assert_eq!(kind.as_byte(), byte);
    }
    assert_eq!(ClientInteractionType::from_byte(4), None);
}

#[test]
fn malformed_answer_still_refreshes_the_worker() {
    let mut ctx = MajordomoContext::new();
    ready(&mut ctx, &[1], b"svc", 0);
    ready(&mut ctx, &[2], b"svc", 1);
    let answer = frames(&[&[1], MDPW, &[3], &[7]]);
    assert_eq!(
        handle_worker_messages(&answer, &mut ctx, 9).unwrap_err(),
        RustydomoError::MalformedMessage
    );
    let all = ctx.all();
    assert_eq!(all[0].identity.value, vec![1]);
    assert_eq!(all[0].last_activity, 9);
}

#[test]
fn request_from_a_worker_is_ignored() {
    let mut ctx = MajordomoContext::new();
    ready(&mut ctx, &[1], b"svc", 0);
    ready(&mut ctx, &[2], b"svc", 1);
    let message = frames(&[&[1], MDPW, &[2], &[7], b"", b"x"]);
    assert!(matches!(handle_worker_messages(&message, &mut ctx, 9), Ok(Outgoing::Nothing)));
    let all = ctx.all();
    assert_eq!(all[0].identity.value, vec![2]);
    assert_eq!(all[1].last_activity, 0);
}

#[test]
fn disconnect_removes_the_worker() {
    let mut ctx = MajordomoContext::new();
    ready(&mut ctx, &[1], b"svc", 0);
    let message = frames(&[&[1], MDPW, &[6]]);
    assert!(matches!(handle_worker_messages(&message, &mut ctx, 1), Ok(Outgoing::Nothing)));
    assert!(!ctx.can_handle_service("svc"));
    match handle_worker_messages(&message, &mut ctx, 2) {
        Ok(Outgoing::Warning(fault)) => assert_eq!(
            fault,
            RustydomoError::ServiceNotAvailable("Identity : [1]".to_string())
        ),
        other => panic!("no warning: {:?}", other),
    }
}

#[test]
fn envelope_goes_out_as_it_came() {
    let mut ctx = MajordomoContext::new();
    ready(&mut ctx, &[1], b"svc", 0);
    let partial = frames(&[&[1], MDPW, &[3], &[7, 7], &[8], &[0], b"", b"a", b"", b"b"]);
    let reply = to_client(handle_worker_messages(&partial, &mut ctx, 1));
    assert_eq!(reply, frames(&[&[7, 7], &[8], &[0], MDPC, &[2], b"a", b"", b"b"]));
    let last = frames(&[&[1], MDPW, &[4], &[7, 7], b""]);
    let reply = to_client(handle_worker_messages(&last, &mut ctx, 2));
    assert_eq!(reply, frames(&[&[7, 7], MDPC, &[3]]));
    let unknown = frames(&[&[5], MDPW, &[4], &[7, 7], b"", b"z"]);
    let reply = to_client(handle_worker_messages(&unknown, &mut ctx, 3));
    assert_eq!(reply, frames(&[&[7, 7], MDPC, &[3], b"z"]));
    assert_eq!(ctx.all().len(), 1);
}

#[test]
fn answer_is_relayed() {
    assert_eq!(
        handle_worker_partial_final_answer(
            &frames(&[&[9], b"", b"x"]),
            ClientInteractionType::Partial
        ),
        Ok(frames(&[&[9], MDPC, &[2], b"x"]))
    );
    assert_eq!(
        handle_worker_partial_final_answer(&frames(&[]), ClientInteractionType::Final),
        Err(RustydomoError::MalformedMessage)
    );
    assert_eq!(
        handle_worker_partial_final_answer(&frames(&[b"", b"x"]), ClientInteractionType::Final),
        Err(RustydomoError::MalformedMessage)
    );
    assert_eq!(
        handle_worker_partial_final_answer(&frames(&[&[9], b"x"]), ClientInteractionType::Final),
        Err(RustydomoError::MalformedMessage)
    );
}

#[test]
fn management_interface() {
    let mut ctx = MajordomoContext::new();
    ctx.register_worker(&[1], "svc", 0).unwrap();
    ctx.register_worker(&[2], "caf\u{e9}", 0).unwrap();
    assert!(is_mmi_service("mmi.service"));
    assert!(is_mmi_service("mmi."));
    assert!(!is_mmi_service("mmi"));
    assert!(!is_mmi_service("Mmi.service"));
    assert!(!is_mmi_service("svc"));
    assert!(!is_mmi_service(""));
    let client: &[u8] = &[7];
    assert_eq!(handle_mmi_services(&ctx, "svc", client, &frames(&[b"svc"])), None);
    assert_eq!(handle_mmi_services(&ctx, "mmi.service", client, &frames(&[])), None);
    assert_eq!(
        handle_mmi_services(&ctx, "mmi.service", client, &frames(&[b"svc", b"more"])),
        Some(frames(&[client, MDPC, &[3], b"mmi.service", b"200"]))
    );
    assert_eq!(
        handle_mmi_services(&ctx, "mmi.service", client, &frames(&[&[b'c', b'a', b'f', 0xc3, 0xa9]])),
        Some(frames(&[client, MDPC, &[3], b"mmi.service", b"200"]))
    );
    assert_eq!(
        handle_mmi_services(&ctx, "mmi.service", client, &frames(&[&[b'c', b'a', b'f', 0xe9]])),
        Some(frames(&[client, MDPC, &[3], b"mmi.service", b"404"]))
    );
    assert_eq!(
        handle_mmi_services(&ctx, "mmi.service", client, &frames(&[b"sv"])),
        Some(frames(&[client, MDPC, &[3], b"mmi.service", b"404"]))
    );
    assert_eq!(
        handle_mmi_services(&ctx, "mmi.echo", client, &frames(&[b"svc"])),
        Some(frames(&[client, MDPC, &[3], b"mmi.echo", b"501"]))
    );
    let ask = frames(&[client, MDPC, &[1], b"mmi.service"]);
    assert!(matches!(
        handle_client_messages(&ask, &mut ctx),
        Ok(Outgoing::Warning(RustydomoError::MalformedMessage))
    ));
    let other = frames(&[client, MDPC, &[1], b"mmi.workers", b"svc"]);
    assert_eq!(
        to_client(handle_client_messages(&other, &mut ctx)),
        frames(&[client, MDPC, &[3], b"mmi.workers", b"501"])
    );
}
