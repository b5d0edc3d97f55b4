//! USB video class stream negotiation: propose a format, ask what the camera made of it, and
//! commit to the answer.
use crate::bytes::{law_low_byte_comes_first, le32, read_le32, write_le32};
use crate::descriptors::{StreamingInterface, StreamingInterfaceView};
use crate::usb::{UsbError, USB_TIMEOUT_MS};
use vstd::prelude::*;

verus! {

/// Host to device, class request, to an interface.
pub const TO_INTERFACE: u8 = 0x21;

/// Device to host, class request, from an interface.
pub const FROM_INTERFACE: u8 = 0xa1;

pub const UVC_SET_CUR: u8 = 0x01;

pub const UVC_GET_CUR: u8 = 0x81;

/// Selector of the probe control, in the high byte of the request value.
pub const UVC_VS_PROBE_CONTROL: u16 = 0x0100;

/// Selector of the commit control, in the high byte of the request value.
pub const UVC_VS_COMMIT_CONTROL: u16 = 0x0200;

pub const UVC_1_1: u16 = 0x0110;

pub const UVC_1_5: u16 = 0x0150;

/// Offset of dwMaxPayloadTransferSize in the control block.
pub const MAX_PAYLOAD_OFFSET: usize = 22;

pub const MIN_PAYLOAD_SIZE: usize = 1024;

pub const MAX_PAYLOAD_SIZE: usize = 0x10_0000;

/// A control transfer, apart from its data.
#[derive(Clone, Copy, PartialEq, Eq, Structural, Debug)]
pub struct ControlRequest {
    pub request_type: u8,
    pub request: u8,
    pub value: u16,
    pub index: u16,
    pub length: u16,
    pub timeout: u32,
}

/// The length of the probe and commit control block, which grew with the protocol version.
pub open spec fn control_len(uvc_version: u16) -> nat {
    if uvc_version >= UVC_1_5 {
        48
    } else if uvc_version >= UVC_1_1 {
        34
    } else {
        26
    }
}

/// `control` proposes the format and frame of the interface at a fixed frame interval, and
/// leaves everything else to the camera.
pub open spec fn is_proposal(
    control: Seq<u8>,
    interface: StreamingInterfaceView,
    frame_interval: u32,
) -> bool {
    &&& control.len() == control_len(interface.uvc_version)
    &&& control[0] == 1
    &&& control[1] == 0
    &&& control[2] == interface.format_index
    &&& control[3] == interface.frame_index
    &&& le32(control, 4) == frame_interval
    &&& forall|i: int| 8 <= i < control.len() ==> control[i] == 0
}

/// The control block that proposes a stream to the camera.
pub fn proposal(interface: &StreamingInterface, frame_interval: u32) -> (control: Vec<u8>)
    ensures
        is_proposal(control@, interface@, frame_interval),
{
    let len: usize = if interface.uvc_version >= UVC_1_5 {
        48
    } else if interface.uvc_version >= UVC_1_1 {
        34
    } else {
        26
    };
    let mut control: Vec<u8> = vec![0u8; len];
    control[0] = 1;  // bmHint: keep dwFrameInterval fixed
    control[2] = interface.format_index;
    control[3] = interface.frame_index;
    write_le32(&mut control, 4, frame_interval);
    control
}

/// The payload size to work with, out of the one that the camera answered.
pub open spec fn bounded_payload_size(size: int) -> int {
    if size < MIN_PAYLOAD_SIZE {
        MIN_PAYLOAD_SIZE as int
    } else if size > MAX_PAYLOAD_SIZE {
        MAX_PAYLOAD_SIZE as int
    } else {
        size
    }
}

#[derive(Clone, Copy, PartialEq, Eq, Structural, Debug)]
pub enum Stage {
    /// The proposal is to be sent.
    Probe,
    /// The answer to the proposal is to be read.
    Query,
    /// The answer is to be committed.
    Commit,
    /// The stream is committed.
    Done,
    /// A transfer failed, and no other is made.
    Failed,
}

impl Stage {
    pub open spec fn next(self) -> Stage {
        match self {
            Stage::Probe => Stage::Query,
            Stage::Query => Stage::Commit,
            Stage::Commit => Stage::Done,
            Stage::Done => Stage::Done,
            Stage::Failed => Stage::Failed,
        }
    }
}

/// A negotiation in progress. The control block goes out with each request and holds, after it,
/// what the transfer left in it.
pub struct Negotiation {
    pub control: Vec<u8>,
    pub interface_number: u16,
    pub stage: Stage,
    pub max_payload_size: usize,
}

/// The view of a `Negotiation`.
#[verifier::ext_equal]
pub struct NegotiationView {
    pub control: Seq<u8>,
    pub interface_number: u16,
    pub stage: Stage,
    pub max_payload_size: int,
}

impl View for Negotiation {
    type V = NegotiationView;

    open spec fn view(&self) -> NegotiationView {
        NegotiationView {
            control: self.control@,
            interface_number: self.interface_number,
            stage: self.stage,
            max_payload_size: self.max_payload_size as int,
        }
    }
}

impl NegotiationView {
    /// The control block reaches the payload size, and its length fits the request's field.
    pub open spec fn wf(self) -> bool {
        MAX_PAYLOAD_OFFSET + 4 <= self.control.len() <= u16::MAX
    }

    /// The request that the stage calls for.
    pub open spec fn request(self) -> Option<ControlRequest> {
        let request = |request_type: u8, request: u8, value: u16| Some(
            ControlRequest {
                request_type,
                request,
                value,
                index: self.interface_number,
                length: self.control.len() as u16,
                timeout: USB_TIMEOUT_MS,
            },
        );
        match self.stage {
            Stage::Probe => request(TO_INTERFACE, UVC_SET_CUR, UVC_VS_PROBE_CONTROL),
            Stage::Query => request(FROM_INTERFACE, UVC_GET_CUR, UVC_VS_PROBE_CONTROL),
            Stage::Commit => request(TO_INTERFACE, UVC_SET_CUR, UVC_VS_COMMIT_CONTROL),
            Stage::Done => None,
            Stage::Failed => None,
        }
    }

    /// The negotiation after a transfer with this result that left `control` in the block.
    pub open spec fn after_transfer(self, result: i32, control: Seq<u8>) -> NegotiationView {
        if result < 0 {
            NegotiationView { stage: Stage::Failed, ..self }
        } else {
            self.after(control)
        }
    }

    /// How the negotiation ended: with the payload size, or with an error. None while it goes on.
    pub open spec fn outcome(self) -> Option<Result<int, UsbError>> {
        match self.stage {
            Stage::Done => Some(Ok(self.max_payload_size)),
            Stage::Failed => Some(Err(UsbError::ControlTransfer)),
            _ => None,
        }
    }

    /// The negotiation after a successful transfer that left `control` in the block. The answer
    /// to the query gives the payload size.
    pub open spec fn after(self, control: Seq<u8>) -> NegotiationView {
        NegotiationView {
            control,
            interface_number: self.interface_number,
            stage: self.stage.next(),
            max_payload_size: if self.stage is Query {
                bounded_payload_size(le32(control, MAX_PAYLOAD_OFFSET as int))
            } else {
                self.max_payload_size
            },
        }
    }
}

impl Negotiation {
    pub fn new(interface: &StreamingInterface, frame_interval: u32) -> (negotiation: Self)
        ensures
            negotiation@.wf(),
            is_proposal(negotiation@.control, interface@, frame_interval),
            negotiation@.interface_number == interface.interface_number,
            negotiation@.stage is Probe,
            negotiation@.max_payload_size == MIN_PAYLOAD_SIZE,
    {
        Negotiation {
            control: proposal(interface, frame_interval),
            interface_number: interface.interface_number,
            stage: Stage::Probe,
            max_payload_size: MIN_PAYLOAD_SIZE,
        }
    }

    /// The next control transfer to make, none when the stream is committed or a transfer failed.
    pub fn request(&self) -> (request: Option<ControlRequest>)
        requires
            self@.wf(),
        ensures
            request == self@.request(),
    {
        let (request_type, request, value): (u8, u8, u16) = match self.stage {
            Stage::Probe => (TO_INTERFACE, UVC_SET_CUR, UVC_VS_PROBE_CONTROL),
            Stage::Query => (FROM_INTERFACE, UVC_GET_CUR, UVC_VS_PROBE_CONTROL),
            Stage::Commit => (TO_INTERFACE, UVC_SET_CUR, UVC_VS_COMMIT_CONTROL),
            Stage::Done | Stage::Failed => {
                return None;
            },
        };
        Some(
            ControlRequest {
                request_type,
                request,
                value,
                index: self.interface_number,
                length: self.control.len() as u16,
                timeout: USB_TIMEOUT_MS,
            },
        )
    }

    /// Takes in the result of the transfer and what it left in the control block. A failure ends
    /// the negotiation.
    pub fn transferred(&mut self, result: i32, control: Vec<u8>) -> (r: Result<(), UsbError>)
        requires
            old(self)@.wf(),
            old(self)@.request() is Some,
            control@.len() == old(self)@.control.len(),
        ensures
            final(self)@.wf(),
            r == if result < 0 {
                Err(UsbError::ControlTransfer)
            } else {
                Ok(())
            },
            final(self)@ == old(self)@.after_transfer(result, control@),
    {
        if result < 0 {
            self.stage = Stage::Failed;
            return Err(UsbError::ControlTransfer);
        }
        match self.stage {
            Stage::Probe => {
                self.stage = Stage::Query;
            },
            Stage::Query => {
                let size: usize = read_le32(control.as_slice(), MAX_PAYLOAD_OFFSET) as usize;
                self.max_payload_size = if size < MIN_PAYLOAD_SIZE {
                    MIN_PAYLOAD_SIZE
                } else if size > MAX_PAYLOAD_SIZE {
                    MAX_PAYLOAD_SIZE
                } else {
                    size
                };
                self.stage = Stage::Commit;
            },
            Stage::Commit => {
                self.stage = Stage::Done;
            },
            Stage::Done | Stage::Failed => {},
        }
        self.control = control;
        Ok(())
    }

    /// How the negotiation ended: with the maximum payload transfer size, or with an error. None
    /// while it goes on.
    pub fn outcome(&self) -> (outcome: Option<Result<usize, UsbError>>)
        ensures
            match outcome {
                Some(Ok(size)) => self@.outcome() == Some(Ok::<int, UsbError>(size as int)),
                Some(Err(error)) => self@.outcome() == Some(Err::<int, UsbError>(error)),
                None => self@.outcome() is None,
            },
    {
        match self.stage {
            Stage::Done => Some(Ok(self.max_payload_size)),
            Stage::Failed => Some(Err(UsbError::ControlTransfer)),
            _ => None,
        }
    }
}

/// A negotiation makes three transfers: it sends the proposal to the probe control, reads the
/// probe control back, and sends what it read to the commit control. The payload size comes
/// from that answer and lies within its bounds.
pub proof fn law_negotiation_commits_the_answer(
    start: NegotiationView,
    sent: Seq<u8>,
    answer: Seq<u8>,
    committed: Seq<u8>,
)
    requires
        start.wf(),
        start.stage is Probe,
        sent.len() == start.control.len(),
        answer.len() == start.control.len(),
        committed.len() == start.control.len(),
    ensures
        ({
            let probed = start.after(sent);
            let queried = probed.after(answer);
            let done = queried.after(committed);
            &&& start.request() matches Some(r) && r.request == UVC_SET_CUR && r.value
                == UVC_VS_PROBE_CONTROL
            &&& probed.request() matches Some(r) && r.request == UVC_GET_CUR && r.value
                == UVC_VS_PROBE_CONTROL
            &&& queried.request() matches Some(r) && r.request == UVC_SET_CUR && r.value
                == UVC_VS_COMMIT_CONTROL
            &&& queried.control == answer
            &&& done.request() is None
            &&& done.max_payload_size == bounded_payload_size(
                le32(answer, MAX_PAYLOAD_OFFSET as int),
            )
            &&& MIN_PAYLOAD_SIZE <= done.max_payload_size <= MAX_PAYLOAD_SIZE
        }),
{
}

/// A negotiation ends at its first transfer that fails, and no other is made after that. It gives
/// an error exactly where one of its three transfers failed, and otherwise the size that the
/// camera answered, within its bounds.
pub proof fn law_negotiation_ends_at_the_first_failure(
    start: NegotiationView,
    results: [i32; 3],
    sent: Seq<u8>,
    answer: Seq<u8>,
    committed: Seq<u8>,
)
    requires
        start.wf(),
        start.stage is Probe,
        sent.len() == start.control.len(),
        answer.len() == start.control.len(),
        committed.len() == start.control.len(),
    ensures
        ({
            let probed = start.after_transfer(results[0], sent);
            let queried = probed.after_transfer(results[1], answer);
            let done = queried.after_transfer(results[2], committed);
            let failure = Some(Err::<int, UsbError>(UsbError::ControlTransfer));
            &&& start.request() is Some
            &&& results[0] < 0 ==> probed.request() is None && probed.outcome() == failure
            &&& results[0] >= 0 ==> {
                &&& probed.request() is Some && probed.outcome() is None
                &&& results[1] < 0 ==> queried.request() is None && queried.outcome() == failure
                &&& results[1] >= 0 ==> {
                    &&& queried.request() is Some && queried.outcome() is None
                    &&& done.request() is None
                    &&& done.outcome() == if results[2] < 0 {
                        failure
                    } else {
                        Some(Ok(bounded_payload_size(le32(answer, MAX_PAYLOAD_OFFSET as int))))
                    }
                }
            }
        }),
{
}

/// The bytes of a proposal: 26 of them, 34 from version 1.1 of the protocol on and 48 from 1.5 on.
/// They hold the hint, the format, the frame and the interval, low byte first, and else zeros.
pub proof fn law_bytes_of_a_proposal(
    control: Seq<u8>,
    interface: StreamingInterfaceView,
    frame_interval: u32,
    i: int,
)
    requires
        is_proposal(control, interface, frame_interval),
        0 <= i < control.len(),
    ensures
        interface.uvc_version < 0x0110 ==> control.len() == 26,
        0x0110 <= interface.uvc_version < 0x0150 ==> control.len() == 34,
        interface.uvc_version >= 0x0150 ==> control.len() == 48,
        i == 0 ==> control[i] == 1,
        i == 2 ==> control[i] == interface.format_index,
        i == 3 ==> control[i] == interface.frame_index,
        i == 4 ==> control[i] == frame_interval % 256,
        i == 5 ==> control[i] == frame_interval / 256 % 256,
        i == 6 ==> control[i] == frame_interval / 65536 % 256,
        i == 7 ==> control[i] == frame_interval / 16777216,
        i == 1 || i >= 8 ==> control[i] == 0,
{
    law_low_byte_comes_first(control, 4, frame_interval);
}

/// The requests of a negotiation, whatever the interface and the length of its control block: set
/// the probe control, get it, and set the commit control, within a second each.
pub proof fn law_requests_of_a_negotiation(negotiation: NegotiationView)
    ensures
        ({
            let request = |request_type: u8, request: u8, value: u16| Some(
                ControlRequest {
                    request_type,
                    request,
                    value,
                    index: negotiation.interface_number,
                    length: negotiation.control.len() as u16,
                    timeout: 1000,
                },
            );
            &&& negotiation.stage is Probe ==> negotiation.request() == request(0x21, 0x01, 0x0100)
            &&& negotiation.stage is Query ==> negotiation.request() == request(0xa1, 0x81, 0x0100)
            &&& negotiation.stage is Commit ==> negotiation.request() == request(
                0x21,
                0x01,
                0x0200,
            )
            &&& negotiation.stage is Done || negotiation.stage is Failed ==> negotiation.request()
                is None
        }),
{
}

/// The payload size is what the camera answered in bytes 22 to 25, low byte first, limited to
/// 1024 to 1048576. No other transfer changes it, and none changes the interface.
pub proof fn law_payload_size_is_what_was_answered(
    negotiation: NegotiationView,
    answer: Seq<u8>,
    result: i32,
)
    ensures
        ({
            let size = answer[22] + 256 * answer[23] + 65536 * answer[24] + 16777216 * answer[25];
            let after = negotiation.after(answer);
            &&& negotiation.stage is Query && size < 1024 ==> after.max_payload_size == 1024
            &&& negotiation.stage is Query && 1024 <= size <= 1048576 ==> after.max_payload_size
                == size
            &&& negotiation.stage is Query && size > 1048576 ==> after.max_payload_size == 1048576
            &&& !(negotiation.stage is Query) ==> after.max_payload_size
                == negotiation.max_payload_size
            &&& after.interface_number == negotiation.interface_number
            &&& after.control == answer
        }),
        result < 0 ==> negotiation.after_transfer(result, answer) == (NegotiationView {
            stage: Stage::Failed,
            ..negotiation
        }),
        result >= 0 ==> negotiation.after_transfer(result, answer) == negotiation.after(answer),
        negotiation.stage is Done ==> negotiation.outcome() == Some(
            Ok::<int, UsbError>(negotiation.max_payload_size),
        ),
{
    law_low_byte_comes_first(answer, 22, 0);
}

/// The model of a negotiation is what it holds.
pub proof fn law_negotiation_is_modelled_as_it_is(negotiation: Negotiation)
    ensures
        negotiation@.control == negotiation.control@,
        negotiation@.interface_number == negotiation.interface_number,
        negotiation@.stage == negotiation.stage,
        negotiation@.max_payload_size == negotiation.max_payload_size,
{
}

} // verus!
