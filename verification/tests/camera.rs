use eye_cameras::bytes::{read_le16, read_le32, write_le32};
use eye_cameras::descriptors::{
    descriptors_readable, parse_streaming_interface, select_frame_interval, StreamingInterface,
};
use eye_cameras::negotiation::{proposal, ControlRequest, Negotiation, Stage};
use eye_cameras::usb::{
    usbdevfs_ioctl, BulkTransfer, Camera, Errnos, ReapStep, TransferQueue, TransferStatus, UsbError, UsbRequest,
};

fn interface_descriptor(number: u8, class: u8, subclass: u8) -> Vec<u8> {
    vec![9, 0x04, number, 0, 1, class, subclass, 0, 0]
}

fn control_header(version: u16) -> Vec<u8> {
    vec![5, 0x24, 0x01, (version % 256) as u8, (version / 256) as u8]
}

fn input_header(endpoint: u8) -> Vec<u8> {
    vec![7, 0x24, 0x01, 1, 0, 0, endpoint]
}

fn format(index: u8) -> Vec<u8> {
    vec![5, 0x24, 0x04, index, 1]
}

fn frame(index: u8, intervals: &[u32]) -> Vec<u8> {
    let mut d = vec![0u8; 26];
    d[1] = 0x24;
    d[2] = 0x05;
    d[3] = index;
    for interval in intervals {
        d.extend_from_slice(&interval.to_le_bytes());
    }
    d[0] = d.len() as u8;
    d
}

fn camera_descriptors() -> Vec<u8> {
    [
        vec![4, 0x02, 0, 0],
        interface_descriptor(0, 14, 1),
        control_header(0x0110),
        interface_descriptor(1, 14, 2),
        input_header(0x81),
        format(1),
        frame(1, &[83_333, 0, 166_666, 333_333]),
        frame(2, &[1]),
        format(2),
    ]
    .concat()
}

fn usable(intervals: &[u32]) -> StreamingInterface {
    StreamingInterface {
        interface_number: 1,
        endpoint_address: 0x81,
        format_index: 1,
        frame_index: 1,
        frame_intervals: intervals.to_vec(),
        uvc_version: 0x0100,
    }
}

#[test]
fn first_streaming_interface_is_found() {
    let bytes = camera_descriptors();
    assert!(descriptors_readable(&bytes));
    let interface = parse_streaming_interface(&bytes).unwrap();
    assert_eq!(interface.interface_number, 1);
    assert_eq!(interface.endpoint_address, 0x81);
    assert_eq!(interface.format_index, 1);
    assert_eq!(interface.frame_index, 1);
    assert_eq!(interface.frame_intervals, vec![83_333, 166_666, 333_333]);
    assert_eq!(interface.uvc_version, 0x0110);
}

#[test]
fn bytes_behind_the_descriptors_are_ignored() {
    let mut bytes = camera_descriptors();
    bytes.extend_from_slice(&[0, 1, 2, 3]);
    let interface = parse_streaming_interface(&bytes).unwrap();
    assert_eq!(interface.frame_intervals, vec![83_333, 166_666, 333_333]);
    let mut bytes = camera_descriptors();
    bytes.extend_from_slice(&[200, 0x24]);
    assert!(parse_streaming_interface(&bytes).is_some());
    let mut bytes = camera_descriptors();
    bytes.push(9);
    assert!(parse_streaming_interface(&bytes).is_some());
}

#[test]
fn incomplete_interfaces_are_refused() {
    assert!(parse_streaming_interface(&[]).is_none());
    let streaming = interface_descriptor(1, 14, 2);
    let no_header = [streaming.clone(), format(1), frame(1, &[5])].concat();
    assert!(parse_streaming_interface(&no_header).is_none());
    let no_format = [streaming.clone(), input_header(1), frame(1, &[5])].concat();
    assert!(parse_streaming_interface(&no_format).is_none());
    let no_frame = [streaming.clone(), input_header(1), format(1)].concat();
    assert!(parse_streaming_interface(&no_frame).is_none());
    let no_interval = [streaming.clone(), input_header(1), format(1), frame(1, &[0])].concat();
    assert!(parse_streaming_interface(&no_interval).is_none());
    let other_class = [
        interface_descriptor(1, 3, 2),
        input_header(1),
        format(1),
        frame(1, &[5]),
    ]
    .concat();
    assert!(parse_streaming_interface(&other_class).is_none());
}

#[test]
fn formats_and_frames_without_an_index_are_passed_over() {
    let bytes = [
        interface_descriptor(3, 14, 2),
        input_header(0x82),
        format(0),
        frame(1, &[7, 8]),
        format(4),
        frame(0, &[6]),
        frame(5, &[9]),
        frame(6, &[10]),
    ]
    .concat();
    let interface = parse_streaming_interface(&bytes).unwrap();
    assert_eq!(interface.interface_number, 3);
    assert_eq!(interface.endpoint_address, 0x82);
    assert_eq!(interface.format_index, 4);
    assert_eq!(interface.frame_index, 5);
    assert_eq!(interface.frame_intervals, vec![9]);
    assert_eq!(interface.uvc_version, 0x0100);
}

#[test]
fn format_is_not_paired_with_a_frame_of_another() {
    let start = [interface_descriptor(1, 14, 2), input_header(0x81)].concat();
    let behind = [start.clone(), format(1), format(2), frame(1, &[333_333])].concat();
    assert!(parse_streaming_interface(&behind).is_none());
    let before = [start.clone(), frame(1, &[333_333]), format(1)].concat();
    assert!(parse_streaming_interface(&before).is_none());
    let unindexed = [start.clone(), format(1), format(0), frame(1, &[333_333])].concat();
    assert!(parse_streaming_interface(&unindexed).is_none());
    let later = [
        start,
        format(1),
        interface_descriptor(2, 14, 2),
        frame(1, &[333_333]),
    ]
    .concat();
    assert!(parse_streaming_interface(&later).is_none());
}

#[test]
fn alternate_settings_are_the_same_interface() {
    let alternate = vec![9, 0x04, 1, 1, 1, 14, 2, 0, 0];
    let start = [interface_descriptor(1, 14, 2), input_header(0x81)].concat();
    let before_format = [
        start.clone(),
        alternate.clone(),
        format(1),
        frame(2, &[333_333]),
    ]
    .concat();
    let before_frame = [
        start.clone(),
        format(1),
        alternate.clone(),
        frame(2, &[333_333]),
    ]
    .concat();
    let around_another = [
        start,
        format(1),
        interface_descriptor(2, 14, 2),
        format(5),
        frame(6, &[1]),
        alternate,
        frame(2, &[333_333]),
    ]
    .concat();
    for bytes in [before_format, before_frame, around_another] {
        let interface = parse_streaming_interface(&bytes).unwrap();
        assert_eq!(interface.interface_number, 1);
        assert_eq!(interface.endpoint_address, 0x81);
        assert_eq!(interface.format_index, 1);
        assert_eq!(interface.frame_index, 2);
        assert_eq!(interface.frame_intervals, vec![333_333]);
    }
}

#[test]
fn other_interfaces_do_not_matter() {
    let second = [
        interface_descriptor(2, 14, 2),
        input_header(0x82),
        format(3),
        frame(4, &[50]),
    ]
    .concat();
    let first = [interface_descriptor(1, 14, 2), input_header(0x81)].concat();
    assert!(parse_streaming_interface(&[first, second.clone()].concat()).is_none());
    let first = [
        interface_descriptor(1, 14, 2),
        input_header(0x81),
        format(1),
        frame(2, &[60, 70]),
    ]
    .concat();
    let interface = parse_streaming_interface(&[first, second].concat()).unwrap();
    assert_eq!(interface.interface_number, 1);
    assert_eq!(interface.endpoint_address, 0x81);
    assert_eq!(interface.format_index, 1);
    assert_eq!(interface.frame_index, 2);
    assert_eq!(interface.frame_intervals, vec![60, 70]);
}

#[test]
fn frame_is_of_the_selected_format() {
    let bytes = [
        interface_descriptor(1, 14, 2),
        input_header(0x81),
        // another kind of format, with a frame
        vec![5, 0x24, 0x06, 1, 1],
        vec![5, 0x24, 0x07, 9, 0],
        format(2),
        frame(3, &[50]),
        frame(4, &[60]),
        format(5),
        frame(6, &[70]),
    ]
    .concat();
    let interface = parse_streaming_interface(&bytes).unwrap();
    assert_eq!(interface.format_index, 2);
    assert_eq!(interface.frame_index, 3);
    assert_eq!(interface.frame_intervals, vec![50]);
}

#[test]
fn version_is_that_before_the_input_header() {
    let bytes = [
        interface_descriptor(0, 14, 1),
        control_header(0x0100),
        control_header(0x0150),
        interface_descriptor(1, 14, 2),
        input_header(0x81),
        format(1),
        frame(1, &[5]),
        interface_descriptor(2, 14, 1),
        control_header(0x0110),
    ]
    .concat();
    assert_eq!(parse_streaming_interface(&bytes).unwrap().uvc_version, 0x0150);
}

#[test]
fn short_descriptors_are_not_readable() {
    assert!(!descriptors_readable(&[6, 0x04, 0, 0, 0, 14]));
    assert!(descriptors_readable(&[2, 0x24]));
    let bytes = [interface_descriptor(0, 14, 2), vec![2, 0x24]].concat();
    assert!(!descriptors_readable(&bytes));
    let bytes = [interface_descriptor(0, 3, 2), vec![2, 0x24]].concat();
    assert!(descriptors_readable(&bytes));
}

#[test]
fn slowest_satisfying_rate_is_selected() {
    let interface = usable(&[333_333, 83_333, 166_666, 200_000]);
    assert_eq!(select_frame_interval(&interface, 60), 166_666);
    assert_eq!(select_frame_interval(&interface, 50), 200_000);
    assert_eq!(select_frame_interval(&interface, 30), 333_333);
    assert_eq!(select_frame_interval(&interface, 1), 333_333);
    assert_eq!(select_frame_interval(&interface, 0), 333_333);
    assert_eq!(select_frame_interval(&interface, 1000), 83_333);
    assert_eq!(select_frame_interval(&interface, u32::MAX), 83_333);
}

#[test]
fn higher_rates_never_select_slower_intervals() {
    let interface = usable(&[100_000, 400_000, 50_000, 50_000, 10_000_000]);
    let mut last = u32::MAX;
    for fps in 0..300 {
        let interval = select_frame_interval(&interface, fps);
        assert!(interval <= last);
        last = interval;
    }
}

#[test]
fn little_endian_integers() {
    let mut bytes = vec![9u8; 7];
    write_le32(&mut bytes, 2, 0x1234_5678);
    assert_eq!(bytes, vec![9, 9, 0x78, 0x56, 0x34, 0x12, 9]);
    assert_eq!(read_le32(&bytes, 2), 0x1234_5678);
    assert_eq!(read_le16(&bytes, 4), 0x1234);
    write_le32(&mut bytes, 0, u32::MAX);
    assert_eq!(read_le32(&bytes, 0), u32::MAX);
}

#[test]
fn usbfs_request_numbers() {
    // linux/usbdevice_fs.h on a 64-bit machine
    assert_eq!(UsbRequest::Control.code(24) as u32, 0xc018_5500);
    assert_eq!(UsbRequest::SubmitUrb.code(56) as u32, 0x8038_550a);
    assert_eq!(UsbRequest::DiscardUrb.code(0) as u32, 0x0000_550b);
    assert_eq!(UsbRequest::ReapUrbNoDelay.code(8) as u32, 0x4008_550d);
    assert_eq!(UsbRequest::ClaimInterface.code(4) as u32, 0x8004_550f);
    assert_eq!(UsbRequest::ReleaseInterface.code(4) as u32, 0x8004_5510);
    assert_eq!(usbdevfs_ioctl(1, 2, 3), 0x4003_5502);
}

#[test]
fn system_numbers_come_from_libc() {
    let errnos = Camera::open(3, usable(&[5])).errnos;
    assert_eq!(errnos.busy, libc::EBUSY);
    assert_eq!(errnos.interrupted, libc::EINTR);
    assert_eq!(errnos.again, libc::EAGAIN);
    assert_eq!(errnos.overflow, libc::EOVERFLOW);
    assert_eq!(errnos.protocol, libc::EPROTO);
    assert_eq!(errnos.illegal_sequence, libc::EILSEQ);
    assert_eq!(errnos.timer_expired, libc::ETIME);
    assert_eq!(errnos.remote_io, libc::EREMOTEIO);
    assert_eq!(errnos.no_entry, libc::ENOENT);
    assert_eq!(errnos.connection_reset, libc::ECONNRESET);
    assert_eq!(errnos.poll_error, libc::POLLERR);
    assert_eq!(errnos.poll_hang_up, libc::POLLHUP);
}

#[test]
fn camera_goes_by_its_error_numbers() {
    let errnos = Errnos {
        busy: 1001,
        interrupted: 1002,
        again: 1003,
        overflow: 1004,
        protocol: 1005,
        illegal_sequence: 1006,
        timer_expired: 1007,
        remote_io: 1008,
        no_entry: 1009,
        connection_reset: 1010,
        poll_error: 0x100,
        poll_hang_up: 0x200,
    };
    let mut camera = Camera::new(3, usable(&[5]), errnos);
    assert_eq!(camera.errnos, errnos);
    assert!(!camera.claimed);
    assert_eq!(camera.claim_interface(-1, Some(1001)), Ok(false));
    assert_eq!(camera.claim_interface(-1, Some(1003)), Err(UsbError::Claim));
    let mut queue = TransferQueue::new(&camera, 4096, 2);
    assert_eq!(queue.polled(-1, Some(1002), 0), ReapStep::Done(Ok(None)));
    assert_eq!(queue.reaped(-1, Some(1003)), ReapStep::Done(Ok(None)));
    assert_eq!(
        queue.status_read(0, -1005, 0),
        ReapStep::Done(Ok(Some((0, TransferStatus::Failed))))
    );
}

#[test]
fn claiming_the_interface() {
    let mut camera = Camera::open(3, usable(&[5]));
    assert_eq!(camera.fd, 3);
    assert_eq!(camera.interface_to_release(), None);
    assert_eq!(camera.claim_interface(-1, Some(libc::EBUSY)), Ok(false));
    assert_eq!(camera.claim_interface(-1, Some(libc::ENODEV)), Err(UsbError::Claim));
    assert_eq!(camera.claim_interface(-1, None), Err(UsbError::Claim));
    assert!(!camera.claimed);
    assert_eq!(camera.claim_interface(0, None), Ok(true));
    assert!(camera.claimed);
    assert_eq!(camera.interface_to_release(), Some(1));
}

#[test]
fn transfers_are_counted() {
    let camera = Camera::open(3, usable(&[5]));
    let mut queue = TransferQueue::new(&camera, 4096, 2);
    assert_eq!(
        queue.template,
        BulkTransfer { urb_type: 3, endpoint: 0x81, buffer_length: 4096 }
    );
    assert_eq!(queue.submit(0), Ok(()));
    assert_eq!(queue.submit(-1), Err(UsbError::Submit));
    assert_eq!(queue.submit(0), Ok(()));
    assert_eq!(queue.pending, 2);
    assert!(queue.draining(5, 6));
    assert!(!queue.draining(6, 6));
    assert_eq!(queue.reaped(-1, Some(libc::EAGAIN)), ReapStep::Done(Ok(None)));
    assert_eq!(queue.reaped(-1, Some(libc::EIO)), ReapStep::Done(Err(UsbError::Reap)));
    assert_eq!(queue.pending, 2);
    assert_eq!(queue.reaped(0, None), ReapStep::Locate);
    assert_eq!(queue.reaped(0, None), ReapStep::Locate);
    assert_eq!(queue.pending, 0);
    assert!(!queue.draining(5, 6));
}

#[test]
fn poll_results() {
    let queue = TransferQueue::new(&Camera::open(3, usable(&[5])), 4096, 2);
    assert_eq!(queue.polled(-1, Some(libc::EINTR), 0), ReapStep::Done(Ok(None)));
    assert_eq!(
        queue.polled(-1, Some(libc::EINVAL), 0),
        ReapStep::Done(Err(UsbError::Wait))
    );
    assert_eq!(queue.polled(0, None, 0), ReapStep::Done(Ok(None)));
    assert_eq!(queue.polled(1, None, libc::POLLOUT), ReapStep::Reap);
    assert_eq!(
        queue.polled(1, None, libc::POLLERR),
        ReapStep::Done(Err(UsbError::Disconnected))
    );
    assert_eq!(
        queue.polled(1, None, libc::POLLOUT | libc::POLLHUP),
        ReapStep::Done(Err(UsbError::Disconnected))
    );
}

#[test]
fn reaped_transfers() {
    let queue = TransferQueue::new(&Camera::open(3, usable(&[5])), 4096, 2);
    assert_eq!(queue.located(0), ReapStep::ReadStatus { index: 0 });
    assert_eq!(queue.located(1), ReapStep::ReadStatus { index: 1 });
    assert_eq!(queue.located(2), ReapStep::Done(Err(UsbError::UnknownTransfer)));
    assert_eq!(queue.located(-1), ReapStep::Done(Err(UsbError::UnknownTransfer)));
    assert_eq!(
        queue.status_read(1, 0, 17),
        ReapStep::Done(Ok(Some((1, TransferStatus::Completed(17)))))
    );
    assert_eq!(
        queue.status_read(1, 0, -17),
        ReapStep::Done(Ok(Some((1, TransferStatus::Completed(0)))))
    );
    for error in [
        libc::EOVERFLOW,
        libc::EPROTO,
        libc::EILSEQ,
        libc::ETIME,
        libc::EREMOTEIO,
        libc::ENOENT,
        libc::ECONNRESET,
    ] {
        assert_eq!(
            queue.status_read(0, -error, 17),
            ReapStep::Done(Ok(Some((0, TransferStatus::Failed))))
        );
    }
    assert_eq!(
        queue.status_read(0, -libc::ESHUTDOWN, 17),
        ReapStep::Done(Err(UsbError::Transfer(libc::ESHUTDOWN)))
    );
    assert_eq!(
        queue.status_read(0, 5, 17),
        ReapStep::Done(Err(UsbError::Transfer(-5)))
    );
}

#[test]
fn error_messages() {
    assert_eq!(UsbError::ControlTransfer.message("x"), "control transfer failed: x");
    assert_eq!(UsbError::Claim.message("x"), "cannot claim the interface: x");
    assert_eq!(UsbError::Submit.message("x"), "cannot submit a transfer: x");
    assert_eq!(UsbError::Wait.message("x"), "cannot wait for transfers: x");
    assert_eq!(UsbError::Disconnected.message("x"), "device disconnected");
    assert_eq!(UsbError::Reap.message("x"), "cannot reap a transfer: x");
    assert_eq!(UsbError::UnknownTransfer.message("x"), "reaped an unknown transfer");
    assert_eq!(UsbError::Transfer(5).message("x"), "transfer failed: x");
}

#[test]
fn proposals() {
    let mut interface = usable(&[5]);
    interface.format_index = 2;
    interface.frame_index = 3;
    let mut expected = vec![0u8; 26];
    expected[0] = 1;
    expected[2] = 2;
    expected[3] = 3;
    expected[4..8].copy_from_slice(&166_666u32.to_le_bytes());
    assert_eq!(proposal(&interface, 166_666), expected);
    interface.uvc_version = 0x010f;
    assert_eq!(proposal(&interface, 1).len(), 26);
    interface.uvc_version = 0x0110;
    assert_eq!(proposal(&interface, 1).len(), 34);
    interface.uvc_version = 0x014f;
    assert_eq!(proposal(&interface, 1).len(), 34);
    interface.uvc_version = 0x0150;
    assert_eq!(proposal(&interface, 1).len(), 48);
}

#[test]
fn negotiation_commits_the_answer() {
    let interface = usable(&[5]);
    let mut negotiation = Negotiation::new(&interface, 166_666);
    let request = |request_type, request, value| {
        Some(ControlRequest { request_type, request, value, index: 1, length: 26, timeout: 1000 })
    };
    assert_eq!(negotiation.control, proposal(&interface, 166_666));
    assert_eq!(negotiation.request(), request(0x21, 0x01, 0x0100));
    assert_eq!(negotiation.outcome(), None);
    let sent = negotiation.control.clone();
    assert_eq!(negotiation.transferred(0, sent), Ok(()));
    assert_eq!(negotiation.request(), request(0xa1, 0x81, 0x0100));
    let mut answer = vec![7u8; 26];
    answer[22..26].copy_from_slice(&30_000u32.to_le_bytes());
    assert_eq!(negotiation.transferred(26, answer.clone()), Ok(()));
    assert_eq!(negotiation.request(), request(0x21, 0x01, 0x0200));
    assert_eq!(negotiation.control, answer);
    assert_eq!(negotiation.transferred(26, answer), Ok(()));
    assert_eq!(negotiation.request(), None);
    assert_eq!(negotiation.stage, Stage::Done);
    assert_eq!(negotiation.max_payload_size, 30_000);
    assert_eq!(negotiation.outcome(), Some(Ok(30_000)));
}

#[test]
fn negotiation_ends_at_the_first_failure() {
    for successes in 0..3 {
        let mut negotiation = Negotiation::new(&usable(&[5]), 166_666);
        for _ in 0..successes {
            assert_eq!(negotiation.transferred(26, vec![0; 26]), Ok(()));
            assert!(negotiation.request().is_some());
            assert_eq!(negotiation.outcome(), None);
        }
        assert_eq!(
            negotiation.transferred(-1, vec![0; 26]),
            Err(UsbError::ControlTransfer)
        );
        assert_eq!(negotiation.stage, Stage::Failed);
        assert_eq!(negotiation.request(), None);
        assert_eq!(negotiation.outcome(), Some(Err(UsbError::ControlTransfer)));
    }
}

#[test]
fn payload_size_is_bounded() {
    for (answered, expected) in [
        (0u32, 1024usize),
        (1023, 1024),
        (1024, 1024),
        (1 << 20, 1 << 20),
        ((1 << 20) + 1, 1 << 20),
        (u32::MAX, 1 << 20),
    ] {
        let mut negotiation = Negotiation::new(&usable(&[5]), 5);
        negotiation.transferred(0, vec![0; 26]).unwrap();
        let mut answer = vec![0u8; 26];
        answer[22..26].copy_from_slice(&answered.to_le_bytes());
        negotiation.transferred(0, answer).unwrap();
        assert_eq!(negotiation.max_payload_size, expected);
    }
}
