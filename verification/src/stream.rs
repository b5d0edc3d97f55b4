//! The reading side of a running stream: which frames to send on, and when to give up.
//!
//! Moments and intervals are in nanoseconds, moments since an origin of the caller's choice.
use crate::frames::{AssemblerView, FrameAssembler, FRAME_BYTES};
use crate::usb::{
    pending_after_reap, pending_after_submit, submit_outcome, TransferQueue, TransferStatus,
    UsbError,
};
use vstd::prelude::*;
use vstd::slice::slice_subrange;

verus! {

/// Consecutive transfer timeouts after which the camera is reopened
pub const MAX_TRANSFER_TIMEOUTS: u32 = 20;

/// How long to wait for a transfer at a time.
pub const TRANSFER_POLL_TIMEOUT_MS: i32 = 250;

/// The camera has a small internal buffer and corrupts frames as soon as the host stops draining
/// it, so enough bulk transfers are kept queued in the kernel to cover this much camera output
/// while the reader is busy or not scheduled
pub const TRANSFER_QUEUE_MS: u64 = 50;

pub const MIN_QUEUED_TRANSFERS: usize = 8;

pub const MAX_QUEUED_TRANSFERS: usize = 64;

/// How many transfers to keep queued, where `needed` of them cover the camera's output for as
/// long as the reader may be busy.
pub fn queued_transfers(needed: usize) -> (count: usize)
    ensures
        count == if needed < MIN_QUEUED_TRANSFERS {
            MIN_QUEUED_TRANSFERS
        } else if needed > MAX_QUEUED_TRANSFERS {
            MAX_QUEUED_TRANSFERS
        } else {
            needed
        },
{
    if needed < MIN_QUEUED_TRANSFERS {
        MIN_QUEUED_TRANSFERS
    } else if needed > MAX_QUEUED_TRANSFERS {
        MAX_QUEUED_TRANSFERS
    } else {
        needed
    }
}

/// Room for a frame and the payload that completes it.
pub fn frame_capacity(max_payload_size: usize) -> (capacity: usize)
    requires
        FRAME_BYTES + max_payload_size <= usize::MAX,
    ensures
        capacity == FRAME_BYTES + max_payload_size,
{
    FRAME_BYTES + max_payload_size
}

/// When the next frame may be sent, after one was sent at `now`: one interval after it might
/// have been sent. A sender that fell behind catches up by no more than that.
pub open spec fn next_send_time(due: int, now: int, interval: int) -> int {
    if due + interval > now - interval {
        due + interval
    } else {
        now - interval
    }
}

/// How many waits in a row were in vain, after one more wait.
pub open spec fn timeouts_after(count: nat, came_back: bool) -> nat {
    if came_back {
        0
    } else {
        count + 1
    }
}

/// Collects the payloads of a stream and picks out the frames to send.
pub struct FramePump {
    pub assembler: FrameAssembler,
    pub consecutive_timeouts: u32,
    pub next_send_time: u64,
    pub send_interval: u64,
}

impl FramePump {
    /// Fewer timeouts in a row than make the reader give up.
    pub open spec fn alive(self) -> bool {
        self.consecutive_timeouts < MAX_TRANSFER_TIMEOUTS
    }

    pub fn new(now: u64, send_interval: u64, capacity: usize) -> (pump: Self)
        ensures
            pump.alive(),
            pump.assembler@ == (AssemblerView {
                frame: Seq::empty(),
                corrupted: false,
                last_fid: None,
            }),
            pump.consecutive_timeouts == 0,
            pump.next_send_time == now,
            pump.send_interval == send_interval,
    {
        FramePump {
            assembler: FrameAssembler::new(capacity),
            consecutive_timeouts: 0,
            next_send_time: now,
            send_interval,
        }
    }

    /// No transfer completed in time. Returns whether the camera stopped sending frames and is
    /// to be reopened.
    pub fn timed_out(&mut self) -> (give_up: bool)
        requires
            old(self).alive(),
        ensures
            give_up == (final(self).consecutive_timeouts >= MAX_TRANSFER_TIMEOUTS),
            give_up == !final(self).alive(),
            *final(self) == (FramePump {
                consecutive_timeouts: timeouts_after(
                    old(self).consecutive_timeouts as nat,
                    false,
                ) as u32,
                ..*old(self)
            }),
    {
        self.consecutive_timeouts += 1;
        self.consecutive_timeouts >= MAX_TRANSFER_TIMEOUTS
    }

    /// A transfer into `buffer` came back. Returns whether it completed a frame.
    pub fn received(&mut self, status: TransferStatus, buffer: &[u8]) -> (complete: bool)
        requires
            status matches TransferStatus::Completed(size) ==> size <= buffer@.len(),
        ensures
            complete == match status {
                TransferStatus::Completed(size) => old(self).assembler@.completed_by(
                    buffer@.take(size as int),
                ),
                TransferStatus::Failed => false,
            },
            final(self).assembler@ == match status {
                TransferStatus::Completed(size) => old(self).assembler@.pushed(
                    buffer@.take(size as int),
                ),
                TransferStatus::Failed => old(self).assembler@,
            },
            final(self).consecutive_timeouts == timeouts_after(
                old(self).consecutive_timeouts as nat,
                true,
            ),
            final(self).next_send_time == old(self).next_send_time,
            final(self).send_interval == old(self).send_interval,
    {
        self.consecutive_timeouts = 0;
        match status {
            TransferStatus::Completed(size) => {
                let payload: &[u8] = slice_subrange(buffer, 0, size);
                assert(payload@ =~= buffer@.take(size as int));
                self.assembler.push(payload)
            },
            TransferStatus::Failed => false,
        }
    }

    /// A frame is complete. Returns whether it is to be sent; it is dropped where the last one
    /// was sent too short a time ago.
    pub fn frame_due(&mut self, now: u64) -> (send: bool)
        requires
            now + old(self).send_interval <= u64::MAX,
        ensures
            send == (now >= old(self).next_send_time),
            final(self).assembler@ == if send {
                old(self).assembler@
            } else {
                old(self).assembler@.discarded()
            },
            final(self).next_send_time as int == if send {
                next_send_time(
                    old(self).next_send_time as int,
                    now as int,
                    old(self).send_interval as int,
                )
            } else {
                old(self).next_send_time as int
            },
            final(self).consecutive_timeouts == old(self).consecutive_timeouts,
            final(self).send_interval == old(self).send_interval,
    {
        if now >= self.next_send_time {
            let later: u64 = self.next_send_time + self.send_interval;
            if now >= self.send_interval && now - self.send_interval > later {
                self.next_send_time = now - self.send_interval;
            } else {
                self.next_send_time = later;
            }
            true
        } else {
            self.assembler.discard_frame();
            false
        }
    }

    /// Hands out the frame to send, continuing with `replacement` as the buffer.
    pub fn take_frame(&mut self, replacement: Vec<u8>) -> (frame: Vec<u8>)
        ensures
            frame@ == old(self).assembler@.frame,
            final(self).assembler@ == (AssemblerView {
                frame: replacement@,
                corrupted: false,
                last_fid: old(self).assembler@.last_fid,
            }),
            final(self).consecutive_timeouts == old(self).consecutive_timeouts,
            final(self).next_send_time == old(self).next_send_time,
            final(self).send_interval == old(self).send_interval,
    {
        self.assembler.take_frame(replacement)
    }

    /// The encoder is still busy with the previous frame: drop this one and keep its buffer
    /// instead of the replacement.
    pub fn put_back(&mut self, frame: Vec<u8>)
        ensures
            final(self).assembler@ == old(self).assembler@.discarded(),
            final(self).consecutive_timeouts == old(self).consecutive_timeouts,
            final(self).next_send_time == old(self).next_send_time,
            final(self).send_interval == old(self).send_interval,
    {
        let mut buffer: Vec<u8> = frame;
        buffer.clear();
        let _ = self.assembler.take_frame(buffer);
    }
}

/// Why a stream ended.
#[derive(Clone, Copy, PartialEq, Eq, Structural, Debug)]
pub enum StreamEnd {
    /// The streamer was told to stop.
    Stopped,
    /// The camera stopped sending frames.
    Stalled,
    Failed(UsbError),
}

/// What a running stream does next.
#[derive(Clone, Copy, PartialEq, Eq, Structural, Debug)]
pub enum Step {
    /// Look whether the streamer is still to run, then call `checked`.
    CheckRunning,
    /// Wait for a transfer, then call `reaped`.
    Reap,
    /// Read the clock, then call `clock_read`.
    ReadClock { transfer: usize },
    /// Take the frame, with `take_frame`.
    TakeFrame { transfer: usize },
    /// Offer the frame to the encoder, then call `offered`.
    OfferFrame { transfer: usize },
    /// Submit the transfer again, then call `submitted`.
    Submit { transfer: usize },
    End(StreamEnd),
}

impl Step {
    /// The transfer that came back from the kernel and is to be submitted again.
    pub open spec fn held_transfer(self) -> Option<usize> {
        match self {
            Step::ReadClock { transfer } => Some(transfer),
            Step::TakeFrame { transfer } => Some(transfer),
            Step::OfferFrame { transfer } => Some(transfer),
            Step::Submit { transfer } => Some(transfer),
            _ => None,
        }
    }

    /// After the streamer looked whether it is to run.
    pub open spec fn after_check(running: bool) -> Step {
        if running {
            Step::Reap
        } else {
            Step::End(StreamEnd::Stopped)
        }
    }

    /// After waiting for a transfer. `stalled` says that too many waits in a row were in vain,
    /// `complete` that the transfer completed a frame.
    pub open spec fn after_reap(
        outcome: Result<Option<(usize, TransferStatus)>, UsbError>,
        stalled: bool,
        complete: bool,
    ) -> Step {
        match outcome {
            Err(error) => Step::End(StreamEnd::Failed(error)),
            Ok(None) => if stalled {
                Step::End(StreamEnd::Stalled)
            } else {
                Step::CheckRunning
            },
            Ok(Some((transfer, _))) => if complete {
                Step::ReadClock { transfer }
            } else {
                Step::Submit { transfer }
            },
        }
    }

    /// After the clock was read. `due` says that the frame is to be sent.
    pub open spec fn after_clock(self, due: bool) -> Step {
        match self {
            Step::ReadClock { transfer } => if due {
                Step::TakeFrame { transfer }
            } else {
                Step::Submit { transfer }
            },
            _ => self,
        }
    }

    /// After the frame was taken.
    pub open spec fn after_take(self) -> Step {
        match self {
            Step::TakeFrame { transfer } => Step::OfferFrame { transfer },
            _ => self,
        }
    }

    /// After the frame was offered to the encoder.
    pub open spec fn after_offer(self) -> Step {
        match self {
            Step::OfferFrame { transfer } => Step::Submit { transfer },
            _ => self,
        }
    }

    /// After the transfer was submitted again.
    pub open spec fn after_submit(result: Result<(), UsbError>) -> Step {
        match result {
            Ok(()) => Step::CheckRunning,
            Err(error) => Step::End(StreamEnd::Failed(error)),
        }
    }
}

/// The payload that a transfer brought into `buffer`.
pub open spec fn payload_of(
    outcome: Result<Option<(usize, TransferStatus)>, UsbError>,
    buffer: Seq<u8>,
) -> Option<Seq<u8>> {
    match outcome {
        Ok(Some((_, TransferStatus::Completed(size)))) => Some(buffer.take(size as int)),
        _ => None,
    }
}

/// A transfer that came back is submitted again, the same one, before any other is waited for,
/// whether it completed a frame or not, and whether the frame was sent or not.
pub proof fn law_reaped_transfer_is_submitted_again(
    transfer: usize,
    status: TransferStatus,
    stalled: bool,
    complete: bool,
    due: bool,
)
    ensures
        ({
            let reaped = Step::after_reap(Ok(Some((transfer, status))), stalled, complete);
            let timed = reaped.after_clock(due);
            let taken = timed.after_take();
            let offered = taken.after_offer();
            &&& reaped.held_transfer() == Some(transfer)
            &&& timed.held_transfer() == Some(transfer)
            &&& taken.held_transfer() == Some(transfer)
            &&& offered == Step::Submit { transfer }
        }),
        Step::after_submit(Ok(())).held_transfer() is None,
        Step::after_submit(Ok(())) == Step::CheckRunning,
{
}

/// Every one of `count` transfers is with the kernel, but for the one that the stream holds.
pub open spec fn all_accounted_for(count: int, pending: int, step: Step) -> bool {
    pending + (if step.held_transfer() is Some {
        1int
    } else {
        0
    }) == count
}

/// No transfer is ever lost or submitted twice, as long as the stream runs: all of them are with
/// the kernel, but for the one that came back and was not submitted again yet.
pub proof fn law_no_transfer_is_lost(
    count: int,
    pending: int,
    transfer: usize,
    status: TransferStatus,
    result: i32,
    running: bool,
    stalled: bool,
    complete: bool,
    due: bool,
)
    requires
        result >= 0,
    ensures
        all_accounted_for(count, pending, Step::CheckRunning) ==> all_accounted_for(
            count,
            pending,
            Step::after_check(running),
        ),
        all_accounted_for(count, pending, Step::Reap) ==> {
            &&& all_accounted_for(count, pending, Step::after_reap(Ok(None), stalled, complete))
            &&& all_accounted_for(
                count,
                pending_after_reap(pending, result),
                Step::after_reap(Ok(Some((transfer, status))), stalled, complete),
            )
        },
        forall|step: Step|
            all_accounted_for(count, pending, step) ==> {
                &&& all_accounted_for(count, pending, #[trigger] step.after_clock(due))
                &&& all_accounted_for(count, pending, step.after_take())
                &&& all_accounted_for(count, pending, step.after_offer())
            },
        all_accounted_for(count, pending, Step::Submit { transfer }) ==> all_accounted_for(
            count,
            pending_after_submit(pending, result),
            Step::after_submit(Ok(())),
        ),
{
}

/// Why a stream did not start.
#[derive(Clone, Copy, PartialEq, Eq, Structural, Debug)]
pub enum SetupEnd {
    /// The camera and the host did not agree on a stream.
    NotNegotiated(UsbError),
    /// A transfer could not be submitted.
    NotSubmitted(UsbError),
}

/// What is to be done next to start a stream.
#[derive(Clone, Copy, PartialEq, Eq, Structural, Debug)]
pub enum SetupStep {
    /// Carry a `Negotiation` through, then call `negotiated`.
    Negotiate,
    /// Make the transfers for payloads of this size, then call `queue_made`.
    MakeQueue { max_payload_size: usize },
    /// Submit the transfer, then call `submitted`.
    Submit { index: usize },
    /// All transfers are with the kernel: start the stream.
    Start,
    End(SetupEnd),
}

impl SetupStep {
    pub open spec fn after_negotiation(outcome: Result<usize, UsbError>) -> SetupStep {
        match outcome {
            Ok(max_payload_size) => SetupStep::MakeQueue { max_payload_size },
            Err(error) => SetupStep::End(SetupEnd::NotNegotiated(error)),
        }
    }

    /// The transfer `index` of `count` is to be submitted, if there is one.
    pub open spec fn submit_or_start(index: int, count: int) -> SetupStep {
        if index < count {
            SetupStep::Submit { index: index as usize }
        } else {
            SetupStep::Start
        }
    }

    /// After a transfer of `count` was submitted, or was not.
    pub open spec fn after_submit(self, count: int, result: Result<(), UsbError>) -> SetupStep {
        match (self, result) {
            (SetupStep::Submit { index }, Ok(())) => SetupStep::submit_or_start(index + 1, count),
            (SetupStep::Submit { .. }, Err(error)) => SetupStep::End(SetupEnd::NotSubmitted(error)),
            _ => self,
        }
    }
}

/// The start of a stream: it is negotiated, then all transfers are submitted, one after the other,
/// and the first failure ends it.
pub struct StreamSetup {
    /// How many transfers there are, of no account before they were made.
    pub count: usize,
    pub step: SetupStep,
}

impl StreamSetup {
    /// A transfer that is to be submitted is one of those there are.
    pub open spec fn wf(self) -> bool {
        self.step matches SetupStep::Submit { index } ==> index < self.count
    }

    pub fn new() -> (setup: Self)
        ensures
            setup == (StreamSetup { count: 0, step: SetupStep::Negotiate }),
            setup.wf(),
    {
        StreamSetup { count: 0, step: SetupStep::Negotiate }
    }

    pub fn negotiated(&mut self, outcome: Result<usize, UsbError>)
        requires
            old(self).step is Negotiate,
        ensures
            final(self).wf(),
            final(self).count == old(self).count,
            final(self).step == SetupStep::after_negotiation(outcome),
    {
        self.step = match outcome {
            Ok(max_payload_size) => SetupStep::MakeQueue { max_payload_size },
            Err(error) => SetupStep::End(SetupEnd::NotNegotiated(error)),
        };
    }

    /// Takes in the queue, none of whose transfers was submitted yet.
    pub fn queue_made(&mut self, queue: &TransferQueue)
        requires
            old(self).step is MakeQueue,
            queue.pending == 0,
        ensures
            final(self).wf(),
            final(self).count == queue.count,
            final(self).step == SetupStep::submit_or_start(0, queue.count as int),
    {
        self.count = queue.count;
        self.step = if self.count > 0 {
            SetupStep::Submit { index: 0 }
        } else {
            SetupStep::Start
        };
    }

    pub fn submitted(&mut self, result: Result<(), UsbError>)
        requires
            old(self).wf(),
            old(self).step is Submit,
        ensures
            final(self).wf(),
            final(self).count == old(self).count,
            final(self).step == old(self).step.after_submit(old(self).count as int, result),
    {
        if let SetupStep::Submit { index } = self.step {
            self.step = match result {
                Ok(()) => if index + 1 < self.count {
                    SetupStep::Submit { index: index + 1 }
                } else {
                    SetupStep::Start
                },
                Err(error) => SetupStep::End(SetupEnd::NotSubmitted(error)),
            };
        }
    }
}

/// The step after the queue of `count` transfers was made and submissions had these results.
pub open spec fn filled_step(count: int, results: Seq<i32>) -> SetupStep
    decreases results.len(),
{
    if results.len() == 0 {
        SetupStep::submit_or_start(0, count)
    } else {
        filled_step(count, results.drop_last()).after_submit(
            count,
            submit_outcome(results.last()),
        )
    }
}

/// How many transfers the kernel holds after submissions into an empty queue had these results.
pub open spec fn filled_pending(results: Seq<i32>) -> int
    decreases results.len(),
{
    if results.len() == 0 {
        0
    } else {
        pending_after_submit(filled_pending(results.drop_last()), results.last())
    }
}

/// While all submissions succeed, the transfers are submitted in order, each one once. When all of
/// them were, the stream starts with every transfer at the kernel.
pub proof fn law_stream_starts_with_a_full_queue(count: int, results: Seq<i32>)
    requires
        results.len() <= count <= usize::MAX,
        forall|i: int| 0 <= i < results.len() ==> #[trigger] results[i] >= 0,
    ensures
        filled_pending(results) == results.len(),
        results.len() < count ==> filled_step(count, results) == (SetupStep::Submit {
            index: results.len() as usize,
        }),
        results.len() == count ==> {
            &&& filled_step(count, results) is Start
            &&& all_accounted_for(count, filled_pending(results), Step::CheckRunning)
        },
    decreases results.len(),
{
    if results.len() > 0 {
        let before = results.drop_last();
        assert forall|i: int| 0 <= i < before.len() implies #[trigger] before[i] >= 0 by {
            assert(before[i] == results[i]);
        }
        law_stream_starts_with_a_full_queue(count, before);
        assert(results.last() == results[results.len() - 1]);
    }
}

/// The first transfer that cannot be submitted ends the start of the stream.
pub proof fn law_failed_submission_ends_the_setup(count: int, results: Seq<i32>)
    requires
        0 < results.len() <= count <= usize::MAX,
        forall|i: int| 0 <= i < results.len() - 1 ==> #[trigger] results[i] >= 0,
        results.last() < 0,
    ensures
        filled_step(count, results) == SetupStep::End(SetupEnd::NotSubmitted(UsbError::Submit)),
        filled_pending(results) == results.len() - 1,
{
    let before = results.drop_last();
    assert forall|i: int| 0 <= i < before.len() implies #[trigger] before[i] >= 0 by {
        assert(before[i] == results[i]);
    }
    law_stream_starts_with_a_full_queue(count, before);
}

/// A running stream: reads transfers until it is told to stop or the camera fails.
pub struct FrameStream {
    pub pump: FramePump,
    pub step: Step,
}

impl FrameStream {
    /// A stream that goes on has not given up on transfers, and a frame that it is about to send
    /// is whole and valid.
    pub open spec fn wf(self) -> bool {
        &&& self.pump.alive() || self.step is End
        &&& self.step is ReadClock || self.step is TakeFrame ==> self.pump.assembler@.is_whole()
    }

    pub fn new(pump: FramePump) -> (stream: Self)
        requires
            pump.alive(),
        ensures
            stream.wf(),
            stream.pump == pump,
            stream.step is CheckRunning,
    {
        FrameStream { pump, step: Step::CheckRunning }
    }

    pub fn checked(&mut self, running: bool)
        requires
            old(self).wf(),
            old(self).step is CheckRunning,
        ensures
            final(self).wf(),
            final(self).pump == old(self).pump,
            final(self).step == Step::after_check(running),
    {
        self.step = if running {
            Step::Reap
        } else {
            Step::End(StreamEnd::Stopped)
        };
    }

    /// Takes in the transfer that came back, if one did in time, and its buffer.
    pub fn reaped(
        &mut self,
        outcome: Result<Option<(usize, TransferStatus)>, UsbError>,
        buffer: &[u8],
    )
        requires
            old(self).wf(),
            old(self).step is Reap,
            outcome matches Ok(Some((_, TransferStatus::Completed(size)))) ==> size
                <= buffer@.len(),
        ensures
            final(self).wf(),
            final(self).step == Step::after_reap(
                outcome,
                timeouts_after(old(self).pump.consecutive_timeouts as nat, false)
                    >= MAX_TRANSFER_TIMEOUTS,
                match payload_of(outcome, buffer@) {
                    Some(payload) => old(self).pump.assembler@.completed_by(payload),
                    None => false,
                },
            ),
            final(self).pump.assembler@ == match payload_of(outcome, buffer@) {
                Some(payload) => old(self).pump.assembler@.pushed(payload),
                None => old(self).pump.assembler@,
            },
            final(self).pump.consecutive_timeouts == match outcome {
                Err(_) => old(self).pump.consecutive_timeouts as nat,
                Ok(came_back) => timeouts_after(
                    old(self).pump.consecutive_timeouts as nat,
                    came_back is Some,
                ),
            },
            final(self).pump.next_send_time == old(self).pump.next_send_time,
            final(self).pump.send_interval == old(self).pump.send_interval,
    {
        match outcome {
            Err(error) => {
                self.step = Step::End(StreamEnd::Failed(error));
            },
            Ok(None) => {
                self.step = if self.pump.timed_out() {
                    Step::End(StreamEnd::Stalled)
                } else {
                    Step::CheckRunning
                };
            },
            Ok(Some((transfer, status))) => {
                self.step = if self.pump.received(status, buffer) {
                    Step::ReadClock { transfer }
                } else {
                    Step::Submit { transfer }
                };
            },
        }
    }

    /// Decides, with the time, whether the frame that is complete is sent.
    pub fn clock_read(&mut self, now: u64)
        requires
            old(self).wf(),
            old(self).step is ReadClock,
            now + old(self).pump.send_interval <= u64::MAX,
        ensures
            final(self).wf(),
            final(self).step == old(self).step.after_clock(now >= old(self).pump.next_send_time),
            final(self).pump.assembler@ == if now >= old(self).pump.next_send_time {
                old(self).pump.assembler@
            } else {
                old(self).pump.assembler@.discarded()
            },
            final(self).pump.next_send_time as int == if now >= old(self).pump.next_send_time {
                next_send_time(
                    old(self).pump.next_send_time as int,
                    now as int,
                    old(self).pump.send_interval as int,
                )
            } else {
                old(self).pump.next_send_time as int
            },
            final(self).pump.consecutive_timeouts == old(self).pump.consecutive_timeouts,
            final(self).pump.send_interval == old(self).pump.send_interval,
    {
        if let Step::ReadClock { transfer } = self.step {
            self.step = if self.pump.frame_due(now) {
                Step::TakeFrame { transfer }
            } else {
                Step::Submit { transfer }
            };
        }
    }

    /// Hands out the frame to offer, continuing with `replacement` as the buffer. Only whole frames
    /// are handed out.
    pub fn take_frame(&mut self, replacement: Vec<u8>) -> (frame: Vec<u8>)
        requires
            old(self).wf(),
            old(self).step is TakeFrame,
        ensures
            final(self).wf(),
            frame@ == old(self).pump.assembler@.frame,
            frame@.len() == FRAME_BYTES,
            final(self).step == old(self).step.after_take(),
            final(self).pump.assembler@ == (AssemblerView {
                frame: replacement@,
                corrupted: false,
                last_fid: old(self).pump.assembler@.last_fid,
            }),
            final(self).pump.consecutive_timeouts == old(self).pump.consecutive_timeouts,
            final(self).pump.next_send_time == old(self).pump.next_send_time,
            final(self).pump.send_interval == old(self).pump.send_interval,
    {
        if let Step::TakeFrame { transfer } = self.step {
            self.step = Step::OfferFrame { transfer };
        }
        self.pump.take_frame(replacement)
    }

    /// Takes in whether the encoder refused the frame, which then comes back.
    pub fn offered(&mut self, refused: Option<Vec<u8>>)
        requires
            old(self).wf(),
            old(self).step is OfferFrame,
        ensures
            final(self).wf(),
            final(self).step == old(self).step.after_offer(),
            final(self).pump.assembler@ == if refused is Some {
                old(self).pump.assembler@.discarded()
            } else {
                old(self).pump.assembler@
            },
            final(self).pump.consecutive_timeouts == old(self).pump.consecutive_timeouts,
            final(self).pump.next_send_time == old(self).pump.next_send_time,
            final(self).pump.send_interval == old(self).pump.send_interval,
    {
        if let Some(frame) = refused {
            self.pump.put_back(frame);
        }
        if let Step::OfferFrame { transfer } = self.step {
            self.step = Step::Submit { transfer };
        }
    }

    pub fn submitted(&mut self, result: Result<(), UsbError>)
        requires
            old(self).wf(),
            old(self).step is Submit,
        ensures
            final(self).wf(),
            final(self).pump == old(self).pump,
            final(self).step == Step::after_submit(result),
    {
        self.step = match result {
            Ok(()) => Step::CheckRunning,
            Err(error) => Step::End(StreamEnd::Failed(error)),
        };
    }
}

/// How many waits in a row were in vain at the end. `waits` holds, for each wait, whether a
/// transfer came back.
pub open spec fn trailing_timeouts(waits: Seq<bool>) -> nat
    decreases waits.len(),
{
    if waits.len() == 0 {
        0
    } else {
        timeouts_after(trailing_timeouts(waits.drop_last()), waits.last())
    }
}

/// The camera counts as stalled exactly when as many waits in a row as are allowed were in vain.
pub proof fn law_stall_takes_consecutive_timeouts(waits: Seq<bool>)
    ensures
        trailing_timeouts(waits) >= MAX_TRANSFER_TIMEOUTS <==> waits.len() >= MAX_TRANSFER_TIMEOUTS
            && forall|i: int|
            waits.len() - MAX_TRANSFER_TIMEOUTS <= i < waits.len() ==> !#[trigger] waits[i],
{
    lemma_trailing_timeouts(waits, MAX_TRANSFER_TIMEOUTS as nat);
}

proof fn lemma_trailing_timeouts(waits: Seq<bool>, m: nat)
    ensures
        trailing_timeouts(waits) >= m <==> waits.len() >= m && forall|i: int|
            waits.len() - m <= i < waits.len() ==> !#[trigger] waits[i],
    decreases waits.len(),
{
    if m > 0 && waits.len() > 0 {
        let before = waits.drop_last();
        let n = waits.len() as int;
        lemma_trailing_timeouts(before, (m - 1) as nat);
        assert(waits.last() == waits[n - 1]);
        assert(forall|i: int| 0 <= i < n - 1 ==> before[i] == waits[i]);
        if trailing_timeouts(waits) >= m {
            assert forall|i: int| n - m <= i < n implies !#[trigger] waits[i] by {
                if i < n - 1 {
                    assert(!before[i]);
                }
            }
        } else if n >= m && !waits.last() {
            let i = choose|i: int| n - m <= i < n - 1 && #[trigger] before[i];
            assert(waits[i]);
        }
    }
}

/// When the next frame may be sent, after frames were sent at `times`.
pub open spec fn due_after(due: int, times: Seq<int>, interval: int) -> int
    decreases times.len(),
{
    if times.len() == 0 {
        due
    } else {
        next_send_time(due_after(due, times.drop_last(), interval), times.last(), interval)
    }
}

/// Each of the frames was sent when it was due.
pub open spec fn all_due(due: int, times: Seq<int>, interval: int) -> bool {
    forall|i: int|
        0 <= i < times.len() ==> #[trigger] times[i] >= due_after(due, times.take(i), interval)
}

proof fn lemma_one_more(n: int, interval: int)
    by (nonlinear_arith)
    ensures
        n * interval == (n - 1) * interval + interval,
{
}

proof fn lemma_due_grows(due: int, times: Seq<int>, interval: int)
    requires
        interval >= 0,
    ensures
        due_after(due, times, interval) >= due + times.len() * interval,
    decreases times.len(),
{
    if times.len() > 0 {
        lemma_due_grows(due, times.drop_last(), interval);
        lemma_one_more(times.len() as int, interval);
    } else {
        assert(0 * interval == 0) by (nonlinear_arith);
    }
}

/// Frames are not sent faster than asked for: each waits for one interval more than the one
/// before it. The next frame is due at most one interval after the last was sent, and no longer
/// than one interval before it was: that much of a stall is made up for.
#[verifier::spinoff_prover]
pub proof fn law_send_rate(due: int, times: Seq<int>, interval: int)
    requires
        interval >= 0,
        all_due(due, times, interval),
    ensures
        due_after(due, times, interval) >= due + times.len() * interval,
        forall|i: int| 0 <= i < times.len() ==> #[trigger] times[i] >= due + i * interval,
        times.len() > 0 ==> times.last() - interval <= due_after(due, times, interval)
            <= times.last() + interval,
{
    lemma_due_grows(due, times, interval);
    assert forall|i: int| 0 <= i < times.len() implies #[trigger] times[i] >= due + i
        * interval by {
        lemma_due_grows(due, times.take(i), interval);
    }
    if times.len() > 0 {
        let n = times.len() as int;
        assert(times.take(n - 1) =~= times.drop_last());
        assert(times[n - 1] >= due_after(due, times.drop_last(), interval));
    }
}

/// The next frame is due one interval after this one was, or one interval before now, whichever is
/// later.
pub proof fn law_next_send_time_is_the_later_one(due: int, now: int, interval: int)
    ensures
        next_send_time(due, now, interval) >= due + interval,
        next_send_time(due, now, interval) >= now - interval,
        next_send_time(due, now, interval) == due + interval || next_send_time(due, now, interval)
            == now - interval,
{
}

/// A wait in vain is one more in a row, and a transfer that comes back ends the row.
pub proof fn law_timeouts_are_counted_in_a_row(count: nat)
    ensures
        timeouts_after(count, false) == count + 1,
        timeouts_after(count, true) == 0,
{
}

/// The payload of a transfer is as much of its buffer as it brought. A lost transfer, a timeout and
/// an error bring none.
pub proof fn law_payload_is_what_the_transfer_brought(
    index: usize,
    size: usize,
    error: UsbError,
    buffer: Seq<u8>,
)
    requires
        size <= buffer.len(),
    ensures
        payload_of(Ok(Some((index, TransferStatus::Completed(size)))), buffer) matches Some(payload)
            && payload.len() == size && payload.is_prefix_of(buffer),
        payload_of(Ok(Some((index, TransferStatus::Failed))), buffer) is None,
        payload_of(Ok(None), buffer) is None,
        payload_of(Err(error), buffer) is None,
{
    assert(buffer.take(size as int).is_prefix_of(buffer));
}

/// A stream that is told to stop ends, a stalled one and one that failed too. A frame that is
/// complete is taken if it is due and dropped if not, and offered once it was taken.
pub proof fn law_course_of_a_stream(
    transfer: usize,
    status: TransferStatus,
    error: UsbError,
    stalled: bool,
    complete: bool,
)
    ensures
        Step::after_check(true) == Step::Reap,
        Step::after_check(false) == Step::End(StreamEnd::Stopped),
        Step::after_reap(Err(error), stalled, complete) == Step::End(StreamEnd::Failed(error)),
        Step::after_reap(Ok(None), true, complete) == Step::End(StreamEnd::Stalled),
        Step::after_reap(Ok(None), false, complete) == Step::CheckRunning,
        Step::after_reap(Ok(Some((transfer, status))), stalled, true) == (Step::ReadClock {
            transfer,
        }),
        Step::after_reap(Ok(Some((transfer, status))), stalled, false) == (Step::Submit {
            transfer,
        }),
        (Step::ReadClock { transfer }).after_clock(true) == (Step::TakeFrame { transfer }),
        (Step::ReadClock { transfer }).after_clock(false) == (Step::Submit { transfer }),
        (Step::TakeFrame { transfer }).after_take() == (Step::OfferFrame { transfer }),
        (Step::OfferFrame { transfer }).after_offer() == (Step::Submit { transfer }),
        Step::after_submit(Ok(())) == Step::CheckRunning,
        Step::after_submit(Err(error)) == Step::End(StreamEnd::Failed(error)),
{
}

/// A negotiated stream goes on to its transfers, with the size that was negotiated, and one that
/// was not negotiated ends. Each transfer is followed by the next one, and the last one by the
/// start.
pub proof fn law_course_of_a_setup(size: usize, error: UsbError, index: usize, count: usize)
    requires
        index < count,
    ensures
        SetupStep::after_negotiation(Ok(size)) == (SetupStep::MakeQueue { max_payload_size: size }),
        SetupStep::after_negotiation(Err(error)) == SetupStep::End(SetupEnd::NotNegotiated(error)),
        SetupStep::submit_or_start(0, count as int) == (SetupStep::Submit { index: 0 }),
        SetupStep::submit_or_start(0, 0) is Start,
        index + 1 < count ==> (SetupStep::Submit { index }).after_submit(count as int, Ok(())) == (
        SetupStep::Submit { index: (index + 1) as usize }),
        index + 1 == count ==> (SetupStep::Submit { index }).after_submit(count as int, Ok(()))
            is Start,
        (SetupStep::Submit { index }).after_submit(count as int, Err(error)) == SetupStep::End(
            SetupEnd::NotSubmitted(error),
        ),
{
}

} // verus!
