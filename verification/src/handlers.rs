//! What the broker does with one message: the message of a client is handed
//! to a worker or answered by the management interface, the message of a
//! worker changes the registry or is relayed to a client.

use crate::data_structures::{ClientInteractionType, WorkerInteractionType};
use crate::errors::{ErrorView, RustydomoError};
use crate::frames::{
    ascii_text, client_reply, client_request_fault, find_delimiter, first_empty, frames_from,
    frames_view, lemma_ascii_text, make_client_reply, make_task_payload, parse_client_request,
    parse_service_name, parse_worker_command, printable, task_payload, worker_command_fault,
    worker_message,
};
use crate::majordomo_context::MajordomoContext;
use crate::mmi_handler::{handle_mmi_services, is_mmi, is_mmi_service, mmi_answer, mmi_status};
use crate::registry::RegistryView;
use crate::text::identity_text;
use vstd::prelude::*;

verus! {

/// What is to be done once a message has been handled.
#[derive(Debug)]
pub enum Outgoing {
    /// Nothing is sent.
    Nothing,
    /// These frames go out on the workers' socket.
    ToWorker(Vec<Vec<u8>>),
    /// These frames go out on the clients' socket.
    ToClient(Vec<Vec<u8>>),
    /// Nothing is sent; the fault is worth a warning and stops nothing.
    Warning(RustydomoError),
}

/// An [`Outgoing`] with its frames as sequences of bytes.
pub enum OutgoingView {
    Nothing,
    ToWorker(Seq<Seq<u8>>),
    ToClient(Seq<Seq<u8>>),
    Warning(ErrorView),
}

impl View for Outgoing {
    type V = OutgoingView;

    open spec fn view(&self) -> OutgoingView {
        match self {
            Outgoing::Nothing => OutgoingView::Nothing,
            Outgoing::ToWorker(frames) => OutgoingView::ToWorker(frames_view(frames@)),
            Outgoing::ToClient(frames) => OutgoingView::ToClient(frames_view(frames@)),
            Outgoing::Warning(fault) => OutgoingView::Warning(fault@),
        }
    }
}

/// The registry after a message, and what the broker does about the message.
pub struct Outcome {
    pub registry: RegistryView,
    pub reply: Result<OutgoingView, ErrorView>,
}

/// What a message from the client side leads to.
///
/// A message that is no request is refused and changes nothing. A request
/// for a service of the management interface is answered to the client, or
/// earns a warning where the interface has no answer. Any other request goes
/// to the worker whose turn it is, as the worker's identity, `MDPW02`, the
/// command `REQUEST`, the client's identity, an empty frame and the body, and
/// that worker goes to the back of its queue; where no worker serves the
/// service the request is refused as `ServiceNotAvailable`.
pub open spec fn client_outcome(registry: RegistryView, frames: Seq<Seq<u8>>) -> Outcome {
    match client_request_fault(frames) {
        Some(fault) => Outcome { registry, reply: Err(fault) },
        None => {
            let client = frames[0];
            let service = ascii_text(frames[3]);
            let body = frames.skip(4);
            if is_mmi(service) {
                match mmi_status(registry, service, body) {
                    Some(status) => Outcome {
                        registry,
                        reply: Ok(OutgoingView::ToClient(mmi_answer(client, frames[3], status))),
                    },
                    None => Outcome {
                        registry,
                        reply: Ok(OutgoingView::Warning(ErrorView::MalformedMessage)),
                    },
                }
            } else if !registry.can_handle(service) {
                Outcome { registry, reply: Err(ErrorView::ServiceNotAvailable(service)) }
            } else {
                Outcome {
                    registry: registry.rotated(service),
                    reply: Ok(
                        OutgoingView::ToWorker(
                            worker_message(registry.queues[service][0], task_payload(client, body)),
                        ),
                    ),
                }
            }
        },
    }
}

/// The reply to a client that the answer of a worker turns into. `answer` is
/// what follows the command in the worker's message: the envelope, that is
/// one frame or more up to the first empty frame, that empty frame, and the
/// body. The envelope goes out as it came, then `MDPC02`, the command, and
/// the body. An answer without envelope or without the empty frame is
/// malformed.
pub open spec fn relayed(answer: Seq<Seq<u8>>, kind: ClientInteractionType) -> Result<
    Seq<Seq<u8>>,
    ErrorView,
> {
    let end = first_empty(answer, 0);
    if end == 0 || end >= answer.len() {
        Err(ErrorView::MalformedMessage)
    } else {
        Ok(client_reply(answer.take(end), kind, answer.skip(end + 1)))
    }
}

/// What a message from the worker side leads to at the instant `now`.
///
/// A message without a command is refused and changes nothing. `READY` with
/// the name of a service registers the worker; `HEARTBEAT` refreshes it;
/// `DISCONNECT` removes it, and earns a warning where the worker is not
/// registered; `PARTIAL` and `FINAL` refresh the worker and relay its answer
/// to the client; `REQUEST` is ignored. `READY` takes one frame behind the
/// command, `HEARTBEAT` and `DISCONNECT` take none: with another number of
/// frames the message is malformed and changes nothing.
pub open spec fn worker_outcome(registry: RegistryView, frames: Seq<Seq<u8>>, now: int) -> Outcome {
    match worker_command_fault(frames) {
        Some(fault) => Outcome { registry, reply: Err(fault) },
        None => {
            let worker = frames[0];
            let command = frames[2][0];
            if command == WorkerInteractionType::Ready.wire() {
                if frames.len() != 4 || !printable(frames[3]) {
                    Outcome { registry, reply: Err(ErrorView::MalformedMessage) }
                } else {
                    Outcome {
                        registry: registry.registered(worker, ascii_text(frames[3]), now),
                        reply: Ok(OutgoingView::Nothing),
                    }
                }
            } else if command == WorkerInteractionType::Request.wire() {
                Outcome { registry, reply: Ok(OutgoingView::Nothing) }
            } else if command == WorkerInteractionType::Heartbeat.wire() {
                if frames.len() != 3 {
                    Outcome { registry, reply: Err(ErrorView::MalformedMessage) }
                } else {
                    Outcome {
                        registry: registry.refreshed(worker, now),
                        reply: Ok(OutgoingView::Nothing),
                    }
                }
            } else if command == WorkerInteractionType::Disconnect.wire() {
                if frames.len() != 3 {
                    Outcome { registry, reply: Err(ErrorView::MalformedMessage) }
                } else if registry.contains(worker) {
                    Outcome { registry: registry.removed(worker), reply: Ok(OutgoingView::Nothing) }
                } else {
                    Outcome {
                        registry,
                        reply: Ok(
                            OutgoingView::Warning(
                                ErrorView::ServiceNotAvailable(identity_text(worker)),
                            ),
                        ),
                    }
                }
            } else {
                let kind = if command == WorkerInteractionType::Partial.wire() {
                    ClientInteractionType::Partial
                } else {
                    ClientInteractionType::Final
                };
                Outcome {
                    registry: registry.refreshed(worker, now),
                    reply: match relayed(frames.skip(3), kind) {
                        Ok(message) => Ok(OutgoingView::ToClient(message)),
                        Err(fault) => Err(fault),
                    },
                }
            }
        },
    }
}

/// Handles one message that came in on the clients' socket. `frames` are the
/// frames of the message, the identity of the client first.
pub fn handle_client_messages(frames: &Vec<Vec<u8>>, ctx: &mut MajordomoContext) -> (handled:
    Result<Outgoing, RustydomoError>)
    requires
        old(ctx).wf(),
    ensures
        final(ctx).wf(),
        final(ctx)@ == client_outcome(old(ctx)@, frames_view(frames@)).registry,
        match handled {
            Ok(outgoing) => client_outcome(old(ctx)@, frames_view(frames@)).reply == Ok::<
                OutgoingView,
                ErrorView,
            >(outgoing@),
            Err(fault) => client_outcome(old(ctx)@, frames_view(frames@)).reply == Err::<
                OutgoingView,
                ErrorView,
            >(fault@),
        },
{
    let request = match parse_client_request(frames) {
        Ok(request) => request,
        Err(fault) => {
            return Err(fault);
        },
    };
    proof {
        lemma_ascii_text(frames@[3]@);
        assert(frames_view(frames@)[3] == frames@[3]@);
        assert(frames_view(frames@)[0] == frames@[0]@);
    }
    if is_mmi_service(request.service_name.as_str()) {
        match handle_mmi_services(
            ctx,
            request.service_name.as_str(),
            request.client.value.as_slice(),
            &request.body,
        ) {
            Some(message) => Ok(Outgoing::ToClient(message)),
            None => Ok(Outgoing::Warning(RustydomoError::MalformedMessage)),
        }
    } else {
        let payload = make_task_payload(request.client.value.as_slice(), &request.body);
        match ctx.send_task_to_worker(request.service_name, payload) {
            Ok(message) => Ok(Outgoing::ToWorker(message)),
            Err(fault) => Err(fault),
        }
    }
}

/// Turns the answer of a worker into the reply for the client. `answer`
/// holds the frames that follow the command in the worker's message.
pub fn handle_worker_partial_final_answer(
    answer: &Vec<Vec<u8>>,
    response_type: ClientInteractionType,
) -> (reply: Result<Vec<Vec<u8>>, RustydomoError>)
    ensures
        match reply {
            Ok(message) => relayed(frames_view(answer@), response_type) == Ok::<
                Seq<Seq<u8>>,
                ErrorView,
            >(frames_view(message@)),
            Err(fault) => relayed(frames_view(answer@), response_type) == Err::<
                Seq<Seq<u8>>,
                ErrorView,
            >(fault@),
        },
{
    let end = find_delimiter(answer, 0);
    if end == 0 || end >= answer.len() {
        return Err(RustydomoError::MalformedMessage);
    }
    let mut envelope: Vec<Vec<u8>> = frames_from(answer, 0);
    envelope.truncate(end);
    let body = frames_from(answer, end + 1);
    assert(frames_view(envelope@) =~= frames_view(answer@).take(end as int));
    Ok(make_client_reply(&envelope, response_type, &body))
}

/// Handles one message that came in on the workers' socket at the instant
/// `now`. `frames` are the frames of the message, the identity of the worker
/// first.
pub fn handle_worker_messages(frames: &Vec<Vec<u8>>, ctx: &mut MajordomoContext, now: u64) -> (handled:
    Result<Outgoing, RustydomoError>)
    requires
        old(ctx).wf(),
    ensures
        final(ctx).wf(),
        final(ctx)@ == worker_outcome(old(ctx)@, frames_view(frames@), now as int).registry,
        match handled {
            Ok(outgoing) => worker_outcome(old(ctx)@, frames_view(frames@), now as int).reply
                == Ok::<OutgoingView, ErrorView>(outgoing@),
            Err(fault) => worker_outcome(old(ctx)@, frames_view(frames@), now as int).reply
                == Err::<OutgoingView, ErrorView>(fault@),
        },
{
    let command = match parse_worker_command(frames) {
        Ok(command) => command,
        Err(fault) => {
            return Err(fault);
        },
    };
    proof {
        assert(frames_view(frames@)[0] == frames@[0]@);
        assert(frames_view(frames@)[2] == frames@[2]@);
    }
    let worker = command.worker.value.as_slice();
    match command.kind {
        WorkerInteractionType::Ready => {
            if frames.len() != 4 {
                return Err(RustydomoError::MalformedMessage);
            }
            assert(frames_view(frames@)[3] == frames@[3]@);
            let service_name = match parse_service_name(frames[3].as_slice()) {
                Ok(name) => name,
                Err(fault) => {
                    return Err(fault);
                },
            };
            match ctx.register_worker(worker, service_name.as_str(), now) {
                Ok(()) => Ok(Outgoing::Nothing),
                Err(fault) => Err(fault),
            }
        },
        WorkerInteractionType::Request => Ok(Outgoing::Nothing),
        WorkerInteractionType::Heartbeat => {
            if frames.len() != 3 {
                return Err(RustydomoError::MalformedMessage);
            }
            match ctx.refresh_expiration_time(worker, now) {
                Ok(()) => Ok(Outgoing::Nothing),
                Err(fault) => Err(fault),
            }
        },
        WorkerInteractionType::Disconnect => {
            if frames.len() != 3 {
                return Err(RustydomoError::MalformedMessage);
            }
            match ctx.remove_worker(worker) {
                Ok(()) => Ok(Outgoing::Nothing),
                Err(fault) => Ok(Outgoing::Warning(fault)),
            }
        },
        WorkerInteractionType::Partial => {
            let refreshed = ctx.refresh_expiration_time(worker, now);
            let answer = frames_from(frames, 3);
            match handle_worker_partial_final_answer(&answer, ClientInteractionType::Partial) {
                Ok(message) => Ok(Outgoing::ToClient(message)),
                Err(fault) => Err(fault),
            }
        },
        WorkerInteractionType::Final => {
            let refreshed = ctx.refresh_expiration_time(worker, now);
            let answer = frames_from(frames, 3);
            match handle_worker_partial_final_answer(&answer, ClientInteractionType::Final) {
                Ok(message) => Ok(Outgoing::ToClient(message)),
                Err(fault) => Err(fault),
            }
        },
    }
}

/// The request of a client reaches the worker whose turn it is, whole: where
/// a worker serves the service, the broker sends the worker's identity, which
/// the transport takes off, and behind it `MDPW02`, the command `REQUEST`,
/// the identity of the client, an empty frame, and the body of the request
/// as it came. The worker reads this as a request with the client's
/// identity, the empty frame and the body.
pub proof fn lemma_request_reaches_worker(
    registry: RegistryView,
    client: Seq<u8>,
    service: Seq<u8>,
    body: Seq<Seq<u8>>,
)
    requires
        registry.wf(),
        printable(service),
        !is_mmi(ascii_text(service)),
        registry.can_handle(ascii_text(service)),
    ensures
        ({
            let request = seq![
                client,
                crate::frames::client_header(),
                seq![ClientInteractionType::Request.wire()],
                service,
            ] + body;
            let outcome = client_outcome(registry, request);
            let worker = registry.queues[ascii_text(service)][0];
            &&& registry.contains(worker)
            &&& outcome.registry == registry.rotated(ascii_text(service))
            &&& outcome.reply matches Ok(OutgoingView::ToWorker(message))
            &&& request == seq![client] + crate::client::request_message(service, body)
            &&& message[0] == worker
            &&& message.drop_first() == seq![
                crate::frames::worker_header(),
                seq![WorkerInteractionType::Request.wire()],
                client,
                Seq::<u8>::empty(),
            ] + body
            &&& crate::worker::broker_request(message.drop_first()) == Some(
                (
                    crate::worker::WorkerRequestState::REQUEST,
                    Some(seq![client, Seq::<u8>::empty()] + body),
                ),
            )
        }),
{
    let request = seq![
        client,
        crate::frames::client_header(),
        seq![ClientInteractionType::Request.wire()],
        service,
    ] + body;
    assert(request.skip(4) =~= body);
    assert(client_request_fault(request) is None);
    let worker = registry.queues[ascii_text(service)][0];
    crate::registry::lemma_queued_is_registered(registry, ascii_text(service), 0);
    let message = worker_message(worker, task_payload(client, body));
    let received = message.drop_first();
    assert(received =~= seq![
        crate::frames::worker_header(),
        seq![WorkerInteractionType::Request.wire()],
        client,
        Seq::<u8>::empty(),
    ] + body);
    assert(received.skip(2) =~= seq![client, Seq::<u8>::empty()] + body);
    assert(request =~= seq![client] + crate::client::request_message(service, body));
}

/// The envelope of a worker's answer reaches the client as the worker wrote
/// it: for an envelope of one frame or more, none of them empty, the broker
/// sends to the client the frames of the envelope, then `MDPC02`, then the
/// command, `PARTIAL` for `PARTIAL` and `FINAL` for `FINAL`, then the body.
pub proof fn lemma_envelope_preserved(
    registry: RegistryView,
    worker: Seq<u8>,
    last: bool,
    envelope: Seq<Seq<u8>>,
    body: Seq<Seq<u8>>,
    now: int,
)
    requires
        envelope.len() > 0,
        forall|i: int| 0 <= i < envelope.len() ==> (#[trigger] envelope[i]).len() > 0,
    ensures
        ({
            let command = if last {
                WorkerInteractionType::Final
            } else {
                WorkerInteractionType::Partial
            };
            let kind = if last {
                ClientInteractionType::Final
            } else {
                ClientInteractionType::Partial
            };
            let answer = seq![worker, crate::frames::worker_header(), seq![command.wire()]]
                + envelope + seq![Seq::<u8>::empty()] + body;
            let outcome = worker_outcome(registry, answer, now);
            &&& outcome.registry == registry.refreshed(worker, now)
            &&& outcome.reply matches Ok(OutgoingView::ToClient(message))
            &&& message == envelope + seq![crate::frames::client_header(), seq![kind.wire()]]
                + body
            &&& message.take(envelope.len() as int) == envelope
        }),
{
    let command = if last {
        WorkerInteractionType::Final
    } else {
        WorkerInteractionType::Partial
    };
    let kind = if last {
        ClientInteractionType::Final
    } else {
        ClientInteractionType::Partial
    };
    let answer = seq![worker, crate::frames::worker_header(), seq![command.wire()]] + envelope
        + seq![Seq::<u8>::empty()] + body;
    let behind = answer.skip(3);
    let end = envelope.len() as int;
    assert(behind =~= envelope + seq![Seq::<u8>::empty()] + body);
    assert(worker_command_fault(answer) is None);
    assert forall|i: int| 0 <= i < end implies (#[trigger] behind[i]).len() > 0 by {
        assert(behind[i] == envelope[i]);
    }
    crate::frames::lemma_first_empty_is(behind, 0, end);
    assert(behind.take(end) =~= envelope);
    assert(behind.skip(end + 1) =~= body);
    let message = client_reply(envelope, kind, body);
    assert(message.take(end) =~= envelope);
}

} // verus!
