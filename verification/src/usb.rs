//! usbfs: request numbers, and what the results of its system calls mean.
use crate::descriptors::StreamingInterface;
use vstd::prelude::*;
use vstd::string::*;

verus! {

pub const IOC_NONE: u32 = 0;

pub const IOC_WRITE: u32 = 1;

pub const IOC_READ: u32 = 2;

/// The letter 'U', the type of all usbfs requests.
pub const USBDEVFS_MAGIC: u32 = 0x55;

pub const USBDEVFS_URB_TYPE_BULK: u8 = 3;

pub const USB_TIMEOUT_MS: u32 = 1000;

/// Upper bound on the time spent on collecting cancelled transfers.
pub const DRAIN_NANOS: u64 = 1_000_000_000;

/// How long to wait for a cancelled transfer at a time.
pub const DRAIN_POLL_TIMEOUT_MS: i32 = 100;

/// The bits of an ioctl number: direction from bit 30, size of the argument from bit 16, type
/// from bit 8, number from bit 0.
pub open spec fn ioctl_bits(direction: u32, number: u32, size: usize) -> u32 {
    (direction << 30u32) | ((size as u32) << 16u32) | (USBDEVFS_MAGIC << 8u32) | number
}

/// The number of a usbfs ioctl.
pub fn usbdevfs_ioctl(direction: u32, number: u32, size: usize) -> (request: i32)
    ensures
        request == ioctl_bits(direction, number, size) as i32,
        request == ((direction << 30u32) | ((size as u32) << 16u32) | (0x55u32 << 8u32) | number)
            as i32,
{
    ((direction << 30u32) | ((size as u32) << 16u32) | (USBDEVFS_MAGIC << 8u32) | number) as i32
}

/// In their ranges the fields of an ioctl number do not overlap, and the number is the
/// two's complement reading of their sum.
pub proof fn law_ioctl_fields_do_not_overlap(direction: u32, number: u32, size: usize)
    requires
        direction < 4,
        number < 0x100,
        size < 0x4000,
    ensures
        ioctl_bits(direction, number, size) == 0x4000_0000 * direction + 0x1_0000 * size + 0x5500
            + number,
        ioctl_bits(direction, number, size) as i32 == if direction < 2 {
            0x4000_0000 * direction + 0x1_0000 * size + 0x5500 + number
        } else {
            0x4000_0000 * (direction - 4) + 0x1_0000 * size + 0x5500 + number
        },
{
    let bits = ioctl_bits(direction, number, size);
    let s = size as u32;
    assert((direction << 30u32) | (s << 16u32) | (0x55u32 << 8u32) | number == 0x4000_0000
        * direction + 0x1_0000 * s + 0x5500 + number) by (bit_vector)
        requires
            direction < 4,
            number < 0x100,
            s < 0x4000,
    ;
    assert(bits < 0x8000_0000 ==> bits as i32 == bits) by (bit_vector);
    assert(bits >= 0x8000_0000 ==> bits as i32 == bits - 0x1_0000_0000) by (bit_vector);
}

/// The usbfs requests that drive the camera.
#[derive(Clone, Copy, PartialEq, Eq, Structural, Debug)]
pub enum UsbRequest {
    Control,
    SubmitUrb,
    DiscardUrb,
    ReapUrbNoDelay,
    ClaimInterface,
    ReleaseInterface,
}

impl UsbRequest {
    pub open spec fn direction(self) -> u32 {
        match self {
            UsbRequest::Control => 3,
            UsbRequest::SubmitUrb => IOC_READ,
            UsbRequest::DiscardUrb => IOC_NONE,
            UsbRequest::ReapUrbNoDelay => IOC_WRITE,
            UsbRequest::ClaimInterface => IOC_READ,
            UsbRequest::ReleaseInterface => IOC_READ,
        }
    }

    pub open spec fn number(self) -> u32 {
        match self {
            UsbRequest::Control => 0,
            UsbRequest::SubmitUrb => 10,
            UsbRequest::DiscardUrb => 11,
            UsbRequest::ReapUrbNoDelay => 13,
            UsbRequest::ClaimInterface => 15,
            UsbRequest::ReleaseInterface => 16,
        }
    }

    /// The ioctl number of this request with an argument of `size` bytes.
    pub fn code(self, size: usize) -> (request: i32)
        ensures
            request == ioctl_bits(self.direction(), self.number(), size) as i32,
    {
        match self {
            UsbRequest::Control => {
                assert(2u32 | 1u32 == 3u32) by (bit_vector);
                usbdevfs_ioctl(IOC_READ | IOC_WRITE, 0, size)
            },
            UsbRequest::SubmitUrb => usbdevfs_ioctl(IOC_READ, 10, size),
            UsbRequest::DiscardUrb => usbdevfs_ioctl(IOC_NONE, 11, size),
            UsbRequest::ReapUrbNoDelay => usbdevfs_ioctl(IOC_WRITE, 13, size),
            UsbRequest::ClaimInterface => usbdevfs_ioctl(IOC_READ, 15, size),
            UsbRequest::ReleaseInterface => usbdevfs_ioctl(IOC_READ, 16, size),
        }
    }
}

/// Error numbers and poll flags as the system numbers them.
#[derive(Clone, Copy, PartialEq, Eq, Structural, Debug)]
pub struct Errnos {
    pub busy: i32,
    pub interrupted: i32,
    pub again: i32,
    pub overflow: i32,
    pub protocol: i32,
    pub illegal_sequence: i32,
    pub timer_expired: i32,
    pub remote_io: i32,
    pub no_entry: i32,
    pub connection_reset: i32,
    pub poll_error: i16,
    pub poll_hang_up: i16,
}

impl Errnos {
    /// Transmission errors and cancelled transfers: the payload is lost, the endpoint works on.
    pub open spec fn is_lost_payload(self, error: i32) -> bool {
        ||| error == self.overflow
        ||| error == self.protocol
        ||| error == self.illegal_sequence
        ||| error == self.timer_expired
        ||| error == self.remote_io
        ||| error == self.no_entry
        ||| error == self.connection_reset
    }

    /// How a transfer ended, by its status (zero or a negated error number) and the number of
    /// bytes that the kernel counted.
    pub open spec fn transfer_outcome(self, status: int, actual_length: int) -> Result<
        TransferStatus,
        UsbError,
    > {
        if status == 0 {
            Ok(
                TransferStatus::Completed(
                    if actual_length > 0 {
                        actual_length as usize
                    } else {
                        0
                    },
                ),
            )
        } else if self.is_lost_payload((-status) as i32) {
            Ok(TransferStatus::Failed)
        } else {
            Err(UsbError::Transfer((-status) as i32))
        }
    }

    pub open spec fn all_positive(self) -> bool {
        &&& self.busy > 0
        &&& self.interrupted > 0
        &&& self.again > 0
        &&& self.overflow > 0
        &&& self.protocol > 0
        &&& self.illegal_sequence > 0
        &&& self.timer_expired > 0
        &&& self.remote_io > 0
        &&& self.no_entry > 0
        &&& self.connection_reset > 0
        &&& self.poll_error > 0
        &&& self.poll_hang_up > 0
    }

    /// The constants `EBUSY`, `EINTR`, `EAGAIN`, `EOVERFLOW`, `EPROTO`, `EILSEQ`, `ETIME`,
    /// `EREMOTEIO`, `ENOENT`, `ECONNRESET`, `POLLERR` and `POLLHUP` of the libc crate. Their
    /// values differ between architectures: of each it is claimed that it is positive, no more.
    #[verifier::external_body]
    pub(crate) fn of_this_system() -> (errnos: Errnos)
        ensures
            errnos.all_positive(),
    {
        Errnos {
            busy: libc::EBUSY,
            interrupted: libc::EINTR,
            again: libc::EAGAIN,
            overflow: libc::EOVERFLOW,
            protocol: libc::EPROTO,
            illegal_sequence: libc::EILSEQ,
            timer_expired: libc::ETIME,
            remote_io: libc::EREMOTEIO,
            no_entry: libc::ENOENT,
            connection_reset: libc::ECONNRESET,
            poll_error: libc::POLLERR,
            poll_hang_up: libc::POLLHUP,
        }
    }
}

/// What went wrong with the camera.
#[derive(Clone, Copy, PartialEq, Eq, Structural, Debug)]
pub enum UsbError {
    ControlTransfer,
    Claim,
    Submit,
    Wait,
    Disconnected,
    Reap,
    UnknownTransfer,
    /// A transfer ended with this system error.
    Transfer(i32),
}

impl UsbError {
    /// The part of the message before the text of the system error.
    pub open spec fn prefix(self) -> Seq<char> {
        match self {
            UsbError::ControlTransfer => "control transfer failed: "@,
            UsbError::Claim => "cannot claim the interface: "@,
            UsbError::Submit => "cannot submit a transfer: "@,
            UsbError::Wait => "cannot wait for transfers: "@,
            UsbError::Disconnected => "device disconnected"@,
            UsbError::Reap => "cannot reap a transfer: "@,
            UsbError::UnknownTransfer => "reaped an unknown transfer"@,
            UsbError::Transfer(_) => "transfer failed: "@,
        }
    }

    /// The error is one of the system, whose text belongs in the message.
    pub open spec fn has_cause(self) -> bool {
        !(self is Disconnected) && !(self is UnknownTransfer)
    }

    /// The message of the error, where `cause` is the text of the system error behind it.
    pub open spec fn text(self, cause: Seq<char>) -> Seq<char> {
        if self.has_cause() {
            self.prefix() + cause
        } else {
            self.prefix()
        }
    }

    /// The message of the error, given the text of the system error behind it.
    pub fn message(&self, cause: &str) -> (message: String)
        ensures
            message@ == self.text(cause@),
    {
        match self {
            UsbError::ControlTransfer => "control transfer failed: ".to_owned().concat(cause),
            UsbError::Claim => "cannot claim the interface: ".to_owned().concat(cause),
            UsbError::Submit => "cannot submit a transfer: ".to_owned().concat(cause),
            UsbError::Wait => "cannot wait for transfers: ".to_owned().concat(cause),
            UsbError::Disconnected => "device disconnected".to_owned(),
            UsbError::Reap => "cannot reap a transfer: ".to_owned().concat(cause),
            UsbError::UnknownTransfer => "reaped an unknown transfer".to_owned(),
            UsbError::Transfer(_) => "transfer failed: ".to_owned().concat(cause),
        }
    }
}

/// The USB device connection, driven on the file descriptor of an open device.
pub struct Camera {
    pub fd: i32,
    pub interface: StreamingInterface,
    pub claimed: bool,
    pub errnos: Errnos,
}

impl Camera {
    /// A camera that is not claimed, on a system that numbers its errors like `errnos`.
    pub fn new(fd: i32, interface: StreamingInterface, errnos: Errnos) -> (camera: Self)
        ensures
            camera == (Camera { fd, interface, claimed: false, errnos }),
    {
        Camera { fd, interface, claimed: false, errnos }
    }

    /// A camera that is not claimed, on this system. How the system numbers its errors differs
    /// between architectures, so of the numbers it is only said that they are positive.
    pub fn open(fd: i32, interface: StreamingInterface) -> (camera: Self)
        ensures
            camera == (Camera { fd, interface, claimed: false, errnos: camera.errnos }),
            camera.errnos.all_positive(),
    {
        Camera::new(fd, interface, Errnos::of_this_system())
    }

    /// Takes in the result of claiming the streaming interface, and the system error where it
    /// failed. Returns Ok(false) when another process holds the interface.
    pub fn claim_interface(&mut self, result: i32, errno: Option<i32>) -> (r: Result<
        bool,
        UsbError,
    >)
        ensures
            r == if result >= 0 {
                Ok(true)
            } else if errno == Some(old(self).errnos.busy) {
                Ok(false)
            } else {
                Err(UsbError::Claim)
            },
            *final(self) == (Camera { claimed: old(self).claimed || result >= 0, ..*old(self) }),
    {
        if result >= 0 {
            self.claimed = true;
            return Ok(true);
        }
        if holds(errno, self.errnos.busy) {
            Ok(false)
        } else {
            Err(UsbError::Claim)
        }
    }

    /// The interface to release when the camera is closed.
    pub fn interface_to_release(&self) -> (number: Option<u32>)
        ensures
            number == if self.claimed {
                Some(self.interface.interface_number as u32)
            } else {
                None
            },
    {
        if self.claimed {
            Some(self.interface.interface_number as u32)
        } else {
            None
        }
    }
}

/// `value` is there and equals `wanted`.
fn holds(value: Option<i32>, wanted: i32) -> (b: bool)
    ensures
        b == (value == Some(wanted)),
{
    match value {
        Some(value) => value == wanted,
        None => false,
    }
}

#[derive(Clone, Copy, PartialEq, Eq, Structural, Debug)]
pub enum TransferStatus {
    /// This many bytes arrived
    Completed(usize),
    /// The payload was lost but the endpoint keeps working
    Failed,
}

/// What is to be done next to get a completed transfer. First, wait for the kernel to have one
/// and call `polled`.
#[derive(Clone, Copy, PartialEq, Eq, Debug)]
pub enum ReapStep {
    /// Reap a transfer, then call `reaped`.
    Reap,
    /// Tell where among the transfers the reaped one is, with `located`.
    Locate,
    /// Read the status of this transfer, then call `status_read`.
    ReadStatus { index: usize },
    /// The index and status of the completed transfer, or None on timeout.
    Done(Result<Option<(usize, TransferStatus)>, UsbError>),
}

/// The fields of a bulk transfer that are the same for all transfers of a stream.
#[derive(Clone, Copy, PartialEq, Eq, Structural, Debug)]
pub struct BulkTransfer {
    pub urb_type: u8,
    pub endpoint: u8,
    pub buffer_length: i32,
}

/// What submitting gives for the result of the system call.
pub open spec fn submit_outcome(result: i32) -> Result<(), UsbError> {
    if result < 0 {
        Err(UsbError::Submit)
    } else {
        Ok(())
    }
}

/// How many transfers the kernel holds after one was submitted, or was not.
pub open spec fn pending_after_submit(pending: int, result: i32) -> int {
    if result < 0 {
        pending
    } else {
        pending + 1
    }
}

/// How many transfers the kernel holds after one was reaped, or was not.
pub open spec fn pending_after_reap(pending: int, result: i32) -> int {
    if result < 0 {
        pending
    } else {
        pending - 1
    }
}

/// Queue of asynchronous bulk transfers: several are always pending in the kernel, which drains
/// the camera even while nobody reads from it.
pub struct TransferQueue {
    pub template: BulkTransfer,
    /// How many transfers there are.
    pub count: usize,
    /// How many of them the kernel holds.
    pub pending: usize,
    pub errnos: Errnos,
}

impl TransferQueue {
    /// A queue of `count` transfers that are still to be submitted.
    pub fn new(camera: &Camera, payload_size: usize, count: usize) -> (queue: Self)
        ensures
            queue.template == (BulkTransfer {
                urb_type: USBDEVFS_URB_TYPE_BULK,
                endpoint: camera.interface.endpoint_address as u8,
                buffer_length: payload_size as i32,
            }),
            queue.count == count,
            queue.pending == 0,
            queue.errnos == camera.errnos,
    {
        TransferQueue {
            template: BulkTransfer {
                urb_type: USBDEVFS_URB_TYPE_BULK,
                endpoint: camera.interface.endpoint_address as u8,
                buffer_length: payload_size as i32,
            },
            count,
            pending: 0,
            errnos: camera.errnos,
        }
    }

    /// Takes in the result of submitting a transfer.
    pub fn submit(&mut self, result: i32) -> (r: Result<(), UsbError>)
        requires
            old(self).pending < usize::MAX,
        ensures
            r == submit_outcome(result),
            final(self).pending == pending_after_submit(old(self).pending as int, result),
            *final(self) == (TransferQueue { pending: final(self).pending, ..*old(self) }),
    {
        if result < 0 {
            return Err(UsbError::Submit);
        }
        self.pending += 1;
        Ok(())
    }

    /// Takes in the result of waiting for a transfer, and the system error where it failed. After
    /// a timeout or an interruption there is nothing to reap.
    pub fn polled(&self, ready: i32, errno: Option<i32>, revents: i16) -> (step: ReapStep)
        ensures
            step == if ready < 0 {
                if errno == Some(self.errnos.interrupted) {
                    ReapStep::Done(Ok(None))
                } else {
                    ReapStep::Done(Err(UsbError::Wait))
                }
            } else if ready == 0 {
                ReapStep::Done(Ok(None))
            } else if revents & (self.errnos.poll_error | self.errnos.poll_hang_up) != 0 {
                ReapStep::Done(Err(UsbError::Disconnected))
            } else {
                ReapStep::Reap
            },
    {
        if ready < 0 {
            return if holds(errno, self.errnos.interrupted) {
                ReapStep::Done(Ok(None))
            } else {
                ReapStep::Done(Err(UsbError::Wait))
            };
        }
        if ready == 0 {
            return ReapStep::Done(Ok(None));
        }
        if revents & (self.errnos.poll_error | self.errnos.poll_hang_up) != 0 {
            return ReapStep::Done(Err(UsbError::Disconnected));
        }
        ReapStep::Reap
    }

    /// Takes in the result of reaping a transfer, and the system error where it failed.
    pub fn reaped(&mut self, result: i32, errno: Option<i32>) -> (step: ReapStep)
        requires
            result >= 0 ==> old(self).pending > 0,
        ensures
            step == if result >= 0 {
                ReapStep::Locate
            } else if errno == Some(old(self).errnos.again) {
                ReapStep::Done(Ok(None))
            } else {
                ReapStep::Done(Err(UsbError::Reap))
            },
            final(self).pending == pending_after_reap(old(self).pending as int, result),
            *final(self) == (TransferQueue { pending: final(self).pending, ..*old(self) }),
    {
        if result < 0 {
            return if holds(errno, self.errnos.again) {
                ReapStep::Done(Ok(None))
            } else {
                ReapStep::Done(Err(UsbError::Reap))
            };
        }
        self.pending -= 1;
        ReapStep::Locate
    }

    /// Takes in the offset of the reaped transfer to the first one.
    pub fn located(&self, offset: isize) -> (step: ReapStep)
        ensures
            step == if 0 <= offset < self.count {
                ReapStep::ReadStatus { index: offset as usize }
            } else {
                ReapStep::Done(Err(UsbError::UnknownTransfer))
            },
    {
        if offset >= 0 && (offset as usize) < self.count {
            ReapStep::ReadStatus { index: offset as usize }
        } else {
            ReapStep::Done(Err(UsbError::UnknownTransfer))
        }
    }

    /// Takes in how the transfer `index` ended.
    pub fn status_read(&self, index: usize, status: i32, actual_length: i32) -> (step: ReapStep)
        requires
            status > i32::MIN,
        ensures
            step == ReapStep::Done(
                match self.errnos.transfer_outcome(status as int, actual_length as int) {
                    Ok(status) => Ok(Some((index, status))),
                    Err(error) => Err(error),
                },
            ),
    {
        let error: i32 = -status;
        if error == 0 {
            let size: usize = if actual_length > 0 {
                actual_length as usize
            } else {
                0
            };
            return ReapStep::Done(Ok(Some((index, TransferStatus::Completed(size)))));
        }
        if error == self.errnos.overflow || error == self.errnos.protocol || error
            == self.errnos.illegal_sequence || error == self.errnos.timer_expired || error
            == self.errnos.remote_io || error == self.errnos.no_entry || error
            == self.errnos.connection_reset {
            ReapStep::Done(Ok(Some((index, TransferStatus::Failed))))
        } else {
            ReapStep::Done(Err(UsbError::Transfer(error)))
        }
    }

    /// Whether cancelled transfers are still to be collected.
    pub fn draining(&self, now: u64, deadline: u64) -> (b: bool)
        ensures
            b == (self.pending > 0 && now < deadline),
    {
        self.pending > 0 && now < deadline
    }
}

/// The numbers of the requests, as the kernel reads them: what goes which way in the two upper
/// bits, the size of the argument below, the letter U, and the request.
pub proof fn law_request_numbers(size: usize)
    requires
        size < 0x4000,
    ensures
        ioctl_bits(UsbRequest::Control.direction(), UsbRequest::Control.number(), size)
            == 0xc000_5500 + 0x1_0000 * size,
        ioctl_bits(UsbRequest::SubmitUrb.direction(), UsbRequest::SubmitUrb.number(), size)
            == 0x8000_550a + 0x1_0000 * size,
        ioctl_bits(UsbRequest::DiscardUrb.direction(), UsbRequest::DiscardUrb.number(), size)
            == 0x0000_550b + 0x1_0000 * size,
        ioctl_bits(
            UsbRequest::ReapUrbNoDelay.direction(),
            UsbRequest::ReapUrbNoDelay.number(),
            size,
        ) == 0x4000_550d + 0x1_0000 * size,
        ioctl_bits(
            UsbRequest::ClaimInterface.direction(),
            UsbRequest::ClaimInterface.number(),
            size,
        ) == 0x8000_550f + 0x1_0000 * size,
        ioctl_bits(
            UsbRequest::ReleaseInterface.direction(),
            UsbRequest::ReleaseInterface.number(),
            size,
        ) == 0x8000_5510 + 0x1_0000 * size,
{
    law_ioctl_fields_do_not_overlap(3, 0, size);
    law_ioctl_fields_do_not_overlap(2, 10, size);
    law_ioctl_fields_do_not_overlap(0, 11, size);
    law_ioctl_fields_do_not_overlap(1, 13, size);
    law_ioctl_fields_do_not_overlap(2, 15, size);
    law_ioctl_fields_do_not_overlap(2, 16, size);
}

/// A transfer without an error brought as many bytes as the kernel counted, none where it counted
/// less than none. Seven errors cost a payload and no more, and any other one fails with its
/// number.
pub proof fn law_how_transfers_end(errnos: Errnos, status: i32, actual_length: i32)
    requires
        status > i32::MIN,
    ensures
        status == 0 && actual_length >= 0 ==> errnos.transfer_outcome(
            status as int,
            actual_length as int,
        ) == Ok::<TransferStatus, UsbError>(TransferStatus::Completed(actual_length as usize)),
        status == 0 && actual_length < 0 ==> errnos.transfer_outcome(
            status as int,
            actual_length as int,
        ) == Ok::<TransferStatus, UsbError>(TransferStatus::Completed(0)),
        status != 0 ==> {
            let lost = -status == errnos.overflow || -status == errnos.protocol || -status
                == errnos.illegal_sequence || -status == errnos.timer_expired || -status
                == errnos.remote_io || -status == errnos.no_entry || -status
                == errnos.connection_reset;
            let outcome = errnos.transfer_outcome(status as int, actual_length as int);
            &&& lost ==> outcome == Ok::<TransferStatus, UsbError>(TransferStatus::Failed)
            &&& !lost ==> outcome == Err::<TransferStatus, UsbError>(
                UsbError::Transfer((-status) as i32),
            )
        },
{
}

/// The message of each error: what failed, and the text of the system error where there is one.
pub proof fn law_messages_of_errors(cause: Seq<char>, number: i32)
    ensures
        UsbError::ControlTransfer.text(cause) == "control transfer failed: "@ + cause,
        UsbError::Claim.text(cause) == "cannot claim the interface: "@ + cause,
        UsbError::Submit.text(cause) == "cannot submit a transfer: "@ + cause,
        UsbError::Wait.text(cause) == "cannot wait for transfers: "@ + cause,
        UsbError::Disconnected.text(cause) == "device disconnected"@,
        UsbError::Reap.text(cause) == "cannot reap a transfer: "@ + cause,
        UsbError::UnknownTransfer.text(cause) == "reaped an unknown transfer"@,
        UsbError::Transfer(number).text(cause) == "transfer failed: "@ + cause,
{
}

/// A transfer that is submitted is one more at the kernel, and one that is reaped is one less. A
/// call that fails changes nothing, and a failed submission is an error.
pub proof fn law_pending_transfers_are_counted(pending: int, result: i32)
    ensures
        result >= 0 ==> pending_after_submit(pending, result) == pending + 1,
        result >= 0 ==> pending_after_reap(pending, result) == pending - 1,
        result < 0 ==> pending_after_submit(pending, result) == pending,
        result < 0 ==> pending_after_reap(pending, result) == pending,
        result >= 0 <==> submit_outcome(result) is Ok,
        result < 0 ==> submit_outcome(result) == Err::<(), UsbError>(UsbError::Submit),
        pending_after_reap(pending_after_submit(pending, result), result) == pending,
{
}

} // verus!
