use eye_cameras::descriptors::StreamingInterface;
use eye_cameras::frames::{split_frame, FrameAssembler, EYE_IMAGE_BYTES, FRAME_BYTES};
use eye_cameras::jpeg::{encode_jpeg, EyeEncoder};
use eye_cameras::session::{
    is_eye_camera, permission_granted, Attempt, AttemptOutcome, AttemptStep, EyeCamerasConfig,
    EyeCamerasStreamer, Report, SessionEnd, SessionStep,
};
use eye_cameras::stream::{
    frame_capacity, queued_transfers, FramePump, FrameStream, SetupEnd, SetupStep, Step, StreamEnd,
    StreamSetup,
};
use eye_cameras::usb::{Camera, ReapStep, TransferQueue, TransferStatus, UsbError};

fn payload(flags: u8, body: &[u8]) -> Vec<u8> {
    let mut payload = vec![2, flags];
    payload.extend_from_slice(body);
    payload
}

fn test_frame() -> Vec<u8> {
    (0..FRAME_BYTES).map(|i| (i % 251) as u8).collect()
}

fn push_all(assembler: &mut FrameAssembler, frame: &[u8], fid: u8, size: usize) -> bool {
    let chunks: Vec<&[u8]> = frame.chunks(size).collect();
    for chunk in &chunks[..chunks.len() - 1] {
        assert!(!assembler.push(&payload(fid, chunk)));
    }
    assembler.push(&payload(fid | 2, chunks[chunks.len() - 1]))
}

#[test]
fn frame_is_reassembled() {
    let frame = test_frame();
    for size in [1000, 4096, 30_000, FRAME_BYTES] {
        let mut assembler = FrameAssembler::new(FRAME_BYTES);
        assert!(push_all(&mut assembler, &frame, 0, size));
        assert_eq!(assembler.take_frame(Vec::new()), frame);
        assert!(push_all(&mut assembler, &frame, 1, size));
        assert_eq!(assembler.take_frame(Vec::new()), frame);
    }
}

#[test]
fn lost_end_of_frame_does_not_spoil_the_next_frame() {
    let frame = test_frame();
    let mut assembler = FrameAssembler::new(0);
    assert!(!assembler.push(&payload(0, &frame[..5000])));
    assert!(push_all(&mut assembler, &frame, 1, 8192));
    assert_eq!(assembler.frame, frame);
}

#[test]
fn bad_frames_are_dropped() {
    let frame = test_frame();
    let mut assembler = FrameAssembler::new(0);
    assert!(!assembler.push(&payload(0x40, &frame[..100])));
    assert!(assembler.corrupted);
    assert!(!assembler.push(&payload(2, &frame[100..])));
    assert!(assembler.frame.is_empty());
    assert!(!assembler.corrupted);
    assert!(!push_all(&mut assembler, &frame[1..], 1, 5000));
    assert!(assembler.frame.is_empty());
    let longer = [frame.clone(), vec![0]].concat();
    assert!(!push_all(&mut assembler, &longer, 0, 5000));
    assert!(assembler.frame.is_empty());
    assert!(push_all(&mut assembler, &frame, 1, 5000));
}

#[test]
fn payloads_without_a_header_are_ignored() {
    let mut assembler = FrameAssembler::new(0);
    for bad in [vec![], vec![2], vec![1, 2, 3], vec![4, 2, 3], vec![0, 2]] {
        assert!(!assembler.push(&bad));
        assert!(assembler.frame.is_empty());
        assert_eq!(assembler.last_fid, None);
    }
    assert!(!assembler.push(&[4, 1, 9, 9, 5, 6]));
    assert_eq!(assembler.frame, vec![5, 6]);
    assert_eq!(assembler.last_fid, Some(1));
    assembler.discard_frame();
    assert!(assembler.frame.is_empty());
    assert_eq!(assembler.last_fid, Some(1));
}

#[test]
fn frame_splits_into_the_eyes() {
    let frame = test_frame();
    let (mut left, mut right) = (vec![1, 2, 3], Vec::new());
    split_frame(&frame, &mut left, &mut right);
    assert_eq!(left.len(), EYE_IMAGE_BYTES);
    assert_eq!(right.len(), EYE_IMAGE_BYTES);
    for row in 0..400 {
        let line = &frame[row * 800..(row + 1) * 800];
        assert_eq!(&right[row * 400..(row + 1) * 400], &line[..400]);
        assert_eq!(&left[row * 400..(row + 1) * 400], &line[400..]);
    }
}

#[test]
fn eye_image_becomes_a_jpeg_file() {
    let pixels = vec![200u8; EYE_IMAGE_BYTES];
    let mut output = vec![1, 2, 3];
    assert!(encode_jpeg(&pixels, 80, &mut output));
    assert_eq!(&output[..2], &[0xff, 0xd8]);
    assert_eq!(&output[output.len() - 2..], &[0xff, 0xd9]);
    let decoded = image::load_from_memory(&output).unwrap().to_luma8();
    assert_eq!(decoded.dimensions(), (400, 400));
    assert!(decoded.pixels().all(|p| p.0[0].abs_diff(200) <= 2));
}

#[test]
fn quality_is_bounded() {
    let pixels: Vec<u8> = (0..EYE_IMAGE_BYTES).map(|i| (i * i % 253) as u8).collect();
    let encode = |quality| {
        let mut output = Vec::new();
        assert!(encode_jpeg(&pixels, quality, &mut output));
        output
    };
    assert_eq!(encode(0), encode(1));
    assert_eq!(encode(101), encode(100));
    assert_eq!(encode(257), encode(100));
    assert!(encode(1).len() < encode(50).len());
    assert!(encode(50).len() < encode(100).len());
}

#[test]
fn both_eyes_are_encoded() {
    let mut frame = vec![0u8; FRAME_BYTES];
    for row in 0..400 {
        for column in 0..400 {
            frame[row * 800 + column] = 40;
            frame[row * 800 + 400 + column] = 220;
        }
    }
    let mut encoder = EyeEncoder::new();
    encoder.load(&frame);
    assert!(encoder.encode(90));
    let left = image::load_from_memory(&encoder.left_jpeg).unwrap().to_luma8();
    let right = image::load_from_memory(&encoder.right_jpeg).unwrap().to_luma8();
    assert!(left.pixels().all(|p| p.0[0].abs_diff(220) <= 2));
    assert!(right.pixels().all(|p| p.0[0].abs_diff(40) <= 2));
}

#[test]
fn queue_sizes() {
    assert_eq!(queued_transfers(0), 8);
    assert_eq!(queued_transfers(8), 8);
    assert_eq!(queued_transfers(33), 33);
    assert_eq!(queued_transfers(64), 64);
    assert_eq!(queued_transfers(usize::MAX), 64);
    assert_eq!(frame_capacity(4096), FRAME_BYTES + 4096);
}

#[test]
fn frames_are_sent_at_the_requested_rate() {
    let mut pump = FramePump::new(1000, 100, 0);
    assert!(pump.frame_due(1000));
    assert_eq!(pump.next_send_time, 1100);
    assert!(!pump.frame_due(1099));
    assert!(pump.frame_due(1150));
    assert_eq!(pump.next_send_time, 1200);
    // after a stall one interval is made up for
    assert!(pump.frame_due(5000));
    assert_eq!(pump.next_send_time, 4900);
    assert!(pump.frame_due(5000));
    assert!(pump.frame_due(5000));
    assert_eq!(pump.next_send_time, 5100);
    assert!(!pump.frame_due(5000));
    // an interval longer than the time since the origin
    let mut pump = FramePump::new(0, 100, 0);
    assert!(pump.frame_due(50));
    assert_eq!(pump.next_send_time, 100);
}

#[test]
fn skipped_frames_are_discarded() {
    let mut pump = FramePump::new(10, 100, 0);
    pump.received(TransferStatus::Completed(4), &[2, 0, 7, 8, 9]);
    assert_eq!(pump.assembler.frame, vec![7, 8]);
    assert!(!pump.frame_due(5));
    assert!(pump.assembler.frame.is_empty());
}

#[test]
fn stream_sends_a_frame() {
    let frame = test_frame();
    let buffer = payload(2, &frame);
    let mut stream = FrameStream::new(FramePump::new(0, 100, 0));
    assert_eq!(stream.step, Step::CheckRunning);
    stream.checked(true);
    assert_eq!(stream.step, Step::Reap);
    stream.reaped(Ok(Some((5, TransferStatus::Completed(buffer.len())))), &buffer);
    assert_eq!(stream.step, Step::ReadClock { transfer: 5 });
    stream.clock_read(7);
    assert_eq!(stream.step, Step::TakeFrame { transfer: 5 });
    assert_eq!(stream.take_frame(Vec::new()), frame);
    assert_eq!(stream.step, Step::OfferFrame { transfer: 5 });
    stream.offered(None);
    assert_eq!(stream.step, Step::Submit { transfer: 5 });
    stream.submitted(Ok(()));
    assert_eq!(stream.step, Step::CheckRunning);
    // the next frame comes too early
    stream.checked(true);
    stream.reaped(Ok(Some((6, TransferStatus::Completed(buffer.len())))), &buffer);
    assert_eq!(stream.step, Step::ReadClock { transfer: 6 });
    stream.clock_read(8);
    assert_eq!(stream.step, Step::Submit { transfer: 6 });
    assert!(stream.pump.assembler.frame.is_empty());
    stream.submitted(Err(UsbError::Submit));
    assert_eq!(stream.step, Step::End(StreamEnd::Failed(UsbError::Submit)));
}

#[test]
fn refused_frame_gives_its_buffer_back() {
    let frame = test_frame();
    let buffer = payload(2, &frame);
    let mut stream = FrameStream::new(FramePump::new(0, 100, 0));
    stream.checked(true);
    stream.reaped(Ok(Some((0, TransferStatus::Completed(buffer.len())))), &buffer);
    stream.clock_read(7);
    let taken = stream.take_frame(vec![1, 2, 3]);
    stream.offered(Some(taken));
    assert_eq!(stream.step, Step::Submit { transfer: 0 });
    assert!(stream.pump.assembler.frame.is_empty());
    assert!(stream.pump.assembler.frame.capacity() >= FRAME_BYTES);
}

#[test]
fn lost_payloads_are_submitted_again() {
    let mut stream = FrameStream::new(FramePump::new(0, 100, 0));
    stream.checked(true);
    stream.reaped(Ok(Some((3, TransferStatus::Failed))), &[]);
    assert_eq!(stream.step, Step::Submit { transfer: 3 });
}

#[test]
fn stream_starts_with_a_full_queue() {
    let mut queue = TransferQueue::new(&Camera::open(3, usable_interface()), 4096, 3);
    let mut setup = StreamSetup::new();
    assert_eq!(setup.step, SetupStep::Negotiate);
    setup.negotiated(Ok(4096));
    assert_eq!(setup.step, SetupStep::MakeQueue { max_payload_size: 4096 });
    setup.queue_made(&queue);
    for index in 0..3 {
        assert_eq!(setup.step, SetupStep::Submit { index });
        setup.submitted(queue.submit(0));
    }
    assert_eq!(setup.step, SetupStep::Start);
    assert_eq!(queue.pending, 3);
}

#[test]
fn first_failure_ends_the_setup() {
    let mut setup = StreamSetup::new();
    setup.negotiated(Err(UsbError::ControlTransfer));
    assert_eq!(
        setup.step,
        SetupStep::End(SetupEnd::NotNegotiated(UsbError::ControlTransfer))
    );
    let mut queue = TransferQueue::new(&Camera::open(3, usable_interface()), 4096, 3);
    let mut setup = StreamSetup::new();
    setup.negotiated(Ok(4096));
    setup.queue_made(&queue);
    setup.submitted(queue.submit(0));
    setup.submitted(queue.submit(-1));
    assert_eq!(setup.step, SetupStep::End(SetupEnd::NotSubmitted(UsbError::Submit)));
    assert_eq!(queue.pending, 1);
    let mut setup = StreamSetup::new();
    setup.negotiated(Ok(4096));
    setup.queue_made(&TransferQueue::new(&Camera::open(3, usable_interface()), 4096, 0));
    assert_eq!(setup.step, SetupStep::Start);
}

fn usable_interface() -> StreamingInterface {
    StreamingInterface {
        interface_number: 1,
        endpoint_address: 0x81,
        format_index: 1,
        frame_index: 1,
        frame_intervals: vec![5],
        uvc_version: 0x0100,
    }
}

#[test]
fn no_transfer_is_lost() {
    let mut queue = TransferQueue::new(&Camera::open(3, usable_interface()), 4096, 3);
    for _ in 0..queue.count {
        assert_eq!(queue.submit(0), Ok(()));
    }
    let mut stream = FrameStream::new(FramePump::new(0, 100, 0));
    for transfer in [0, 2, 1, 0] {
        stream.checked(true);
        assert_eq!(queue.pending, 3);
        assert_eq!(queue.reaped(0, None), ReapStep::Locate);
        assert_eq!(queue.located(transfer as isize), ReapStep::ReadStatus { index: transfer });
        let outcome = match queue.status_read(transfer, 0, 3) {
            ReapStep::Done(outcome) => outcome,
            _ => panic!("the transfer is not done"),
        };
        stream.reaped(outcome, &[2, 0, 1]);
        assert_eq!(queue.pending, 2);
        assert_eq!(stream.step, Step::Submit { transfer });
        stream.submitted(queue.submit(0));
    }
    assert_eq!(queue.pending, 3);
    assert_eq!(stream.pump.assembler.frame, vec![1, 1, 1, 1]);
}

#[test]
fn stream_stops_when_told_to() {
    let mut stream = FrameStream::new(FramePump::new(0, 100, 0));
    stream.checked(false);
    assert_eq!(stream.step, Step::End(StreamEnd::Stopped));
}

#[test]
fn stream_stalls_after_consecutive_timeouts() {
    let mut stream = FrameStream::new(FramePump::new(0, 100, 0));
    for _ in 0..19 {
        stream.checked(true);
        stream.reaped(Ok(None), &[]);
        assert_eq!(stream.step, Step::CheckRunning);
    }
    stream.checked(true);
    stream.reaped(Ok(Some((0, TransferStatus::Failed))), &[]);
    stream.submitted(Ok(()));
    for _ in 0..19 {
        stream.checked(true);
        stream.reaped(Ok(None), &[]);
        assert_eq!(stream.step, Step::CheckRunning);
    }
    stream.checked(true);
    stream.reaped(Ok(None), &[]);
    assert_eq!(stream.step, Step::End(StreamEnd::Stalled));
}

#[test]
fn failing_wait_ends_the_stream() {
    let mut stream = FrameStream::new(FramePump::new(0, 100, 0));
    stream.checked(true);
    stream.reaped(Err(UsbError::Disconnected), &[]);
    assert_eq!(stream.step, Step::End(StreamEnd::Failed(UsbError::Disconnected)));
}

#[test]
fn camera_is_known_by_its_ids() {
    assert!(is_eye_camera(0x0bb4, 0x06a7));
    assert!(!is_eye_camera(0x0bb4, 0x06a8));
    assert!(!is_eye_camera(0x0bb5, 0x06a7));
}

#[test]
fn permission_status() {
    assert!(permission_granted(Some(Some(0))));
    assert!(!permission_granted(Some(Some(-1))));
    assert!(!permission_granted(Some(None)));
    assert!(!permission_granted(None));
}

fn streamer() -> EyeCamerasStreamer {
    EyeCamerasStreamer::new(EyeCamerasConfig { fps: 60, jpeg_quality: 80 })
}

fn denied(streamer: &mut EyeCamerasStreamer, name: &str) -> bool {
    let mut attempt = Attempt::new();
    attempt.looked(true);
    attempt.permission_checked(false);
    attempt.name_read(name.to_string(), streamer);
    let asked = match &attempt.step {
        AttemptStep::RequestPermission(asked_for) => {
            assert_eq!(asked_for, name);
            true
        }
        _ => false,
    };
    if asked {
        attempt.permission_requested(streamer);
    }
    assert!(matches!(
        attempt.step,
        AttemptStep::Done(AttemptOutcome::WaitingForPermission)
    ));
    asked
}

#[test]
fn user_is_asked_once_per_device() {
    let mut streamer = streamer();
    assert!(denied(&mut streamer, "/dev/bus/usb/001/002"));
    assert!(!denied(&mut streamer, "/dev/bus/usb/001/002"));
    assert!(denied(&mut streamer, "/dev/bus/usb/001/003"));
    assert!(!denied(&mut streamer, "/dev/bus/usb/001/003"));
    assert!(denied(&mut streamer, "/dev/bus/usb/001/002"));
}

#[test]
fn failed_request_is_made_again() {
    let streamer = streamer();
    for _ in 0..2 {
        let mut attempt = Attempt::new();
        attempt.looked(true);
        attempt.permission_checked(false);
        attempt.name_read("x".to_string(), &streamer);
        assert!(matches!(attempt.step, AttemptStep::RequestPermission(_)));
    }
}

fn opened_attempt() -> Attempt {
    let mut attempt = Attempt::new();
    attempt.looked(true);
    attempt.permission_checked(true);
    assert!(matches!(attempt.step, AttemptStep::OpenDevice));
    attempt.opened(false);
    attempt
}

fn failure(attempt: &mut Attempt) -> String {
    attempt.closed();
    match std::mem::replace(&mut attempt.step, AttemptStep::FindCamera) {
        AttemptStep::Done(AttemptOutcome::OpenFailed(reason)) => reason,
        _ => panic!("the attempt did not fail"),
    }
}

const DESCRIPTORS: [u8; 51] = [
    9, 0x04, 1, 0, 1, 14, 2, 0, 0, // interface
    7, 0x24, 0x01, 1, 0, 0, 0x81, // input header
    5, 0x24, 0x04, 1, 1, // format
    30, 0x24, 0x05, 1, 0, 0, 0, 0, 0, 0, 0, 0, 0, 0, 0, 0, 0, 0, 0, 0, 0, 0, 0, 0, 0, 0, 10, 0, 0,
    0,
];

#[test]
fn attempt_streams() {
    let mut attempt = opened_attempt();
    attempt.descriptors_read(&DESCRIPTORS);
    match &attempt.step {
        AttemptStep::Claim(interface) => assert_eq!(interface.frame_intervals, vec![10]),
        _ => panic!("no interface to claim"),
    }
    attempt.claimed(Ok(true), "");
    assert!(matches!(attempt.step, AttemptStep::Stream));
    attempt.streamed();
    assert!(matches!(attempt.step, AttemptStep::Close(_)));
    attempt.closed();
    assert!(matches!(attempt.step, AttemptStep::Done(AttemptOutcome::Streamed)));
}

#[test]
fn attempt_outcomes() {
    let mut attempt = Attempt::new();
    attempt.looked(false);
    assert!(matches!(attempt.step, AttemptStep::Done(AttemptOutcome::CameraNotFound)));

    let mut attempt = Attempt::new();
    attempt.looked(true);
    attempt.permission_checked(true);
    attempt.opened(true);
    match &attempt.step {
        AttemptStep::Done(AttemptOutcome::OpenFailed(reason)) => {
            assert_eq!(reason, "openDevice failed")
        }
        _ => panic!("the attempt did not fail"),
    }

    let mut attempt = opened_attempt();
    attempt.descriptors_read(&[]);
    assert_eq!(failure(&mut attempt), "no video streaming interface found");

    let mut attempt = opened_attempt();
    attempt.descriptors_read(&DESCRIPTORS);
    attempt.claimed(Err(UsbError::Claim), "no such device");
    assert_eq!(failure(&mut attempt), "cannot claim the interface: no such device");

    let mut attempt = opened_attempt();
    attempt.descriptors_read(&DESCRIPTORS);
    attempt.claimed(Ok(false), "");
    attempt.closed();
    assert!(matches!(attempt.step, AttemptStep::Done(AttemptOutcome::CameraBusy)));
}

#[test]
fn missing_or_busy_camera_is_reported_once() {
    let mut streamer = streamer();
    let mut report = |outcome| {
        streamer.step = SessionStep::Attempt;
        let report = streamer.attempted(outcome);
        assert_eq!(streamer.step, SessionStep::CheckPause);
        report
    };
    assert!(matches!(report(Some(AttemptOutcome::CameraNotFound)), Report::NotFound));
    assert!(matches!(report(Some(AttemptOutcome::CameraNotFound)), Report::Nothing));
    assert!(matches!(report(Some(AttemptOutcome::CameraBusy)), Report::Busy));
    assert!(matches!(report(Some(AttemptOutcome::CameraBusy)), Report::Nothing));
    assert!(matches!(report(Some(AttemptOutcome::WaitingForPermission)), Report::Nothing));
    assert!(matches!(report(None), Report::JavaError));
    assert!(matches!(report(None), Report::JavaError));
    assert!(matches!(report(Some(AttemptOutcome::CameraNotFound)), Report::Nothing));
    match report(Some(AttemptOutcome::OpenFailed("x".to_string()))) {
        Report::OpenFailed(reason) => assert_eq!(reason, "x"),
        _ => panic!("the failure is not reported"),
    }
    assert!(matches!(report(Some(AttemptOutcome::Streamed)), Report::Nothing));
    assert!(matches!(report(Some(AttemptOutcome::CameraBusy)), Report::Busy));
    assert!(matches!(report(Some(AttemptOutcome::CameraNotFound)), Report::NotFound));
}

#[test]
fn session_with_the_permission() {
    let mut streamer = streamer();
    assert_eq!(streamer.step, SessionStep::Attach);
    streamer.attached(true);
    assert_eq!(streamer.step, SessionStep::CheckPermission);
    streamer.permission_checked(true);
    assert_eq!(streamer.step, SessionStep::FindUsbManager);
    streamer.usb_manager_found(true);
    for _ in 0..2 {
        assert_eq!(streamer.step, SessionStep::CheckRunning);
        streamer.running_checked(true);
        assert_eq!(streamer.step, SessionStep::Attempt);
        streamer.attempted(None);
        assert_eq!(streamer.step, SessionStep::CheckPause);
        streamer.running_checked(true);
        assert_eq!(streamer.step, SessionStep::Pause);
        streamer.paused();
    }
    streamer.running_checked(true);
    streamer.attempted(Some(AttemptOutcome::Streamed));
    streamer.running_checked(false);
    assert_eq!(streamer.step, SessionStep::CheckRunning);
    streamer.running_checked(false);
    assert_eq!(streamer.step, SessionStep::End(SessionEnd::Stopped));
}

#[test]
fn session_waits_for_the_permission() {
    let mut streamer = streamer();
    streamer.attached(true);
    streamer.permission_checked(false);
    assert_eq!(streamer.step, SessionStep::RequestPermission);
    streamer.permission_requested();
    for _ in 0..2 {
        assert_eq!(streamer.step, SessionStep::AwaitPermission);
        streamer.running_checked(true);
        assert_eq!(streamer.step, SessionStep::RecheckPermission);
        streamer.permission_checked(false);
        assert_eq!(streamer.step, SessionStep::PauseForPermission);
        streamer.paused();
    }
    streamer.running_checked(true);
    streamer.permission_checked(true);
    assert_eq!(streamer.step, SessionStep::FindUsbManager);
}

#[test]
fn session_ends() {
    let mut streamer = streamer();
    streamer.attached(false);
    assert_eq!(streamer.step, SessionStep::End(SessionEnd::NoVirtualMachine));
    streamer.step = SessionStep::FindUsbManager;
    streamer.usb_manager_found(false);
    assert_eq!(streamer.step, SessionStep::End(SessionEnd::NoUsbManager));
    streamer.step = SessionStep::AwaitPermission;
    streamer.running_checked(false);
    assert_eq!(streamer.step, SessionStep::FindUsbManager);
    streamer.usb_manager_found(true);
    streamer.running_checked(false);
    assert_eq!(streamer.step, SessionStep::End(SessionEnd::Stopped));
}
