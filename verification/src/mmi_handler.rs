//! The management interface: the services whose names begin with `mmi.`,
//! which the broker answers itself.

use crate::data_structures::ClientInteractionType;
use crate::frames::{byte_frame, client_header, client_header_frame, frame_to_string, frames_view};
use crate::majordomo_context::MajordomoContext;
use crate::registry::RegistryView;
use vstd::prelude::*;
use vstd::slice::slice_to_vec;
use vstd::string::StringSliceAdditionalSpecFns;
use vstd::utf8::{decode_utf8, valid_utf8};

verus! {

/// The four characters `mmi.`.
pub open spec fn mmi_prefix() -> Seq<char> {
    seq!['m', 'm', 'i', '.']
}

/// Whether a service name belongs to the management interface: it begins
/// with `mmi.`.
pub open spec fn is_mmi(service: Seq<char>) -> bool {
    mmi_prefix().is_prefix_of(service)
}

/// Whether `service_name` names a service of the management interface.
pub fn is_mmi_service(service_name: &str) -> (mmi: bool)
    ensures
        mmi == is_mmi(service_name@),
{
    let mmi = service_name.unicode_len() >= 4 && service_name.get_char(0) == 'm'
        && service_name.get_char(1) == 'm' && service_name.get_char(2) == 'i'
        && service_name.get_char(3) == '.';
    proof {
        if mmi {
            assert(mmi_prefix() =~= service_name@.subrange(0, 4));
        } else if service_name@.len() >= 4 {
            assert(mmi_prefix()[0] == 'm' && mmi_prefix()[1] == 'm' && mmi_prefix()[2] == 'i'
                && mmi_prefix()[3] == '.');
            if is_mmi(service_name@) {
                let head = service_name@.subrange(0, 4);
                assert(head[0] == 'm' && head[1] == 'm' && head[2] == 'i' && head[3] == '.');
            }
        }
    }
    mmi
}

/// The status `200`: the service has a worker.
pub open spec fn status_found() -> Seq<u8> {
    seq![0x32u8, 0x30u8, 0x30u8]
}

/// The status `404`: the service has no worker.
pub open spec fn status_missing() -> Seq<u8> {
    seq![0x34u8, 0x30u8, 0x34u8]
}

/// The status `501`: the management interface has no such service.
pub open spec fn status_unknown() -> Seq<u8> {
    seq![0x35u8, 0x30u8, 0x31u8]
}

/// The status with which the management interface answers a request for
/// `service` with the body `payload`, if it answers.
///
/// `mmi.service` is answered where the body has a frame: with `200` where
/// that frame is the name of a service that a worker serves, else with `404`.
/// Every other service of the interface is answered with `501`. A service
/// outside the interface is not answered, nor `mmi.service` without a body.
pub open spec fn mmi_status(
    registry: RegistryView,
    service: Seq<char>,
    payload: Seq<Seq<u8>>,
) -> Option<Seq<u8>> {
    if !is_mmi(service) {
        None
    } else if service == "mmi.service"@ {
        if payload.len() == 0 {
            None
        } else if valid_utf8(payload[0]) && registry.can_handle(decode_utf8(payload[0])) {
            Some(status_found())
        } else {
            Some(status_missing())
        }
    } else {
        Some(status_unknown())
    }
}

/// The answer of the management interface: the client's identity, `MDPC02`,
/// the command `FINAL`, the name of the service as the client wrote it, and
/// the status.
pub open spec fn mmi_answer(client: Seq<u8>, service: Seq<u8>, status: Seq<u8>) -> Seq<Seq<u8>> {
    seq![client, client_header(), seq![ClientInteractionType::Final.wire()], service, status]
}

/// Puts the answer of the management interface together.
fn send_mmi_answer(client_id: &[u8], service_name: &str, answer: Vec<u8>) -> (message: Vec<
    Vec<u8>,
>)
    ensures
        frames_view(message@) == mmi_answer(client_id@, service_name.spec_bytes(), answer@),
{
    let mut message: Vec<Vec<u8>> = Vec::new();
    message.push(slice_to_vec(client_id));
    message.push(client_header_frame());
    message.push(byte_frame(ClientInteractionType::Final.as_byte()));
    message.push(slice_to_vec(service_name.as_bytes()));
    message.push(answer);
    assert(frames_view(message@) =~= mmi_answer(
        client_id@,
        service_name.spec_bytes(),
        answer@,
    ));
    message
}

/// Answers a request for `mmi.service`: whether the service that the first
/// frame of `payload` names has a worker.
fn handle_mmi_service_request(
    ctx: &MajordomoContext,
    client_id: &[u8],
    service_name: &str,
    payload: &Vec<Vec<u8>>,
) -> (reply: Option<Vec<Vec<u8>>>)
    requires
        ctx.wf(),
    ensures
        reply is Some <==> payload@.len() > 0,
        reply matches Some(message) ==> frames_view(message@) == mmi_answer(
            client_id@,
            service_name.spec_bytes(),
            if valid_utf8(payload@[0]@) && ctx@.can_handle(decode_utf8(payload@[0]@)) {
                status_found()
            } else {
                status_missing()
            },
        ),
{
    if payload.len() >= 1 {
        let served = match frame_to_string(payload[0].as_slice()) {
            Some(wanted) => ctx.can_handle_service(wanted.as_str()),
            None => false,
        };
        let answer: Vec<u8> = if served {
            vec![0x32u8, 0x30u8, 0x30u8]
        } else {
            vec![0x34u8, 0x30u8, 0x34u8]
        };
        assert(served ==> answer@ =~= status_found());
        assert(!served ==> answer@ =~= status_missing());
        Some(send_mmi_answer(client_id, service_name, answer))
    } else {
        None
    }
}

/// Answers a request for a service of the management interface. The result
/// is the message to send on the clients' socket; there is none for a service
/// outside the interface, and none for `mmi.service` without a body.
pub fn handle_mmi_services(
    ctx: &MajordomoContext,
    service_name: &str,
    client_id: &[u8],
    payload: &Vec<Vec<u8>>,
) -> (reply: Option<Vec<Vec<u8>>>)
    requires
        ctx.wf(),
    ensures
        reply is Some <==> mmi_status(ctx@, service_name@, frames_view(payload@)) is Some,
        reply matches Some(message) ==> frames_view(message@) == mmi_answer(
            client_id@,
            service_name.spec_bytes(),
            mmi_status(ctx@, service_name@, frames_view(payload@))->Some_0,
        ),
{
    if !is_mmi_service(service_name) {
        None
    } else if service_name.to_string() == "mmi.service".to_string() {
        handle_mmi_service_request(ctx, client_id, service_name, payload)
    } else {
        let answer: Vec<u8> = vec![0x35u8, 0x30u8, 0x31u8];
        assert(answer@ =~= status_unknown());
        Some(send_mmi_answer(client_id, service_name, answer))
    }
}

} // verus!
