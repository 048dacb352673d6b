//! The network block device protocol.
use temporal_nbd::bridge::{offset_len_to_lba, BridgeCommand, BridgeResponse};
use temporal_nbd::engine::VolumeGeometry;
use temporal_nbd::nbd::{
    configure_device, do_it_result, do_it_result_given, encode_reply, on_header, on_payload,
    on_reply, on_response, parse_request_header, preflight, serve_outcome, teardown_calls,
    validate_range, DoItEnd, HeaderInput, NbdStep, ReplyPurpose, RequestHeader, RequestKind,
};

fn geometry() -> VolumeGeometry {
    VolumeGeometry::new(1 << 20, 4096).expect("valid geometry")
}

fn raw_header(magic: u32, cmd: u32, handle: [u8; 8], offset: u64, length: u32) -> Vec<u8> {
    let mut raw = Vec::new();
    raw.extend_from_slice(&magic.to_be_bytes());
    raw.extend_from_slice(&cmd.to_be_bytes());
    raw.extend_from_slice(&handle);
    raw.extend_from_slice(&offset.to_be_bytes());
    raw.extend_from_slice(&length.to_be_bytes());
    raw
}

fn header_step(cmd: u32, offset: u64, length: u32) -> NbdStep {
    let raw = raw_header(0x2560_9513, cmd, *b"abcdefgh", offset, length);
    on_header(&geometry(), HeaderInput::Raw(raw))
}

fn header(cmd: u32, offset: u64, length: u32) -> RequestHeader {
    RequestHeader {
        cmd_type: cmd,
        handle: *b"abcdefgh",
        offset_bytes: offset,
        length_bytes: length,
    }
}

fn reply_bytes(step: NbdStep, purpose: ReplyPurpose) -> Vec<u8> {
    let NbdStep::Reply(task) = step else {
        panic!("a reply is expected");
    };
    assert_eq!(task.purpose, purpose);
    task.bytes
}

fn reply(errno: u32, payload: &[u8]) -> Vec<u8> {
    let mut bytes = vec![0x67, 0x44, 0x66, 0x98];
    bytes.extend_from_slice(&errno.to_be_bytes());
    bytes.extend_from_slice(b"abcdefgh");
    bytes.extend_from_slice(payload);
    bytes
}

#[test]
fn header_is_read_in_network_order() {
    let raw = raw_header(0x2560_9513, 0x0001_0003, *b"12345678", 0x0102_0304_0506_0708, 0x0a0b_0c0d);
    let header = parse_request_header(&raw).expect("valid header");
    assert_eq!(header.cmd_type, 0x0001_0003);
    assert_eq!(&header.handle, b"12345678");
    assert_eq!(header.offset_bytes, 0x0102_0304_0506_0708);
    assert_eq!(header.length_bytes, 0x0a0b_0c0d);
}

#[test]
fn wrong_magic_stops_the_loop() {
    let raw = raw_header(0x00ab_cdef, 0, [0; 8], 0, 4096);
    assert_eq!(
        parse_request_header(&raw).expect_err("wrong magic"),
        "invalid request magic: 0x00abcdef"
    );
    let NbdStep::Stop(Some(message)) = on_header(&geometry(), HeaderInput::Raw(raw)) else {
        panic!("stop");
    };
    assert_eq!(
        message,
        "failed to read nbd request header: invalid request magic: 0x00abcdef"
    );
}

#[test]
fn closed_and_failed_sockets_stop_the_loop() {
    assert!(matches!(on_header(&geometry(), HeaderInput::EndOfStream), NbdStep::Stop(None)));
    let NbdStep::Stop(Some(message)) =
        on_header(&geometry(), HeaderInput::Failed("reset".to_string()))
    else {
        panic!("stop");
    };
    assert_eq!(message, "failed to read nbd request header: reset");
}

#[test]
fn read_request_is_submitted_and_answered() {
    let NbdStep::Submit(task) = header_step(0, 8192, 4096) else {
        panic!("submit");
    };
    assert_eq!(task.kind, RequestKind::Read);
    assert!(matches!(
        task.command,
        BridgeCommand::Read { offset_bytes: 8192, length_bytes: 4096 }
    ));
    let data = vec![5_u8; 4096];
    let step = on_response(task.header, task.kind, BridgeResponse::ok(data.clone()));
    assert_eq!(reply_bytes(step, ReplyPurpose::Read), reply(0, &data));
}

#[test]
fn read_of_the_wrong_length_is_an_io_error() {
    let step = on_response(header(0, 0, 4096), RequestKind::Read, BridgeResponse::ok(vec![1]));
    assert_eq!(reply_bytes(step, ReplyPurpose::ReadSize), reply(5, &[]));
}

#[test]
fn failed_read_carries_whatever_data_the_answer_holds() {
    let response = BridgeResponse::queue_closed("x");
    let step = on_response(header(0, 0, 4096), RequestKind::Read, response);
    assert_eq!(reply_bytes(step, ReplyPurpose::Read), reply(5, b"bridge queue closed: x"));
}

#[test]
fn out_of_range_requests_are_answered_at_once() {
    let step = header_step(0, 1 << 20, 4096);
    assert_eq!(reply_bytes(step, ReplyPurpose::ReadError), reply(22, &[]));
    let step = on_payload(&geometry(), header(1, 1, 4096), Ok(vec![0; 4096]));
    assert_eq!(reply_bytes(step, ReplyPurpose::WriteError), reply(22, &[]));
}

#[test]
fn write_request_reads_its_payload_first() {
    let NbdStep::ReadPayload(waiting) = header_step(1, 4096, 4096) else {
        panic!("payload");
    };
    let NbdStep::Submit(task) = on_payload(&geometry(), waiting, Ok(vec![3; 4096])) else {
        panic!("submit");
    };
    assert_eq!(task.kind, RequestKind::Write);
    let step = on_response(task.header, task.kind, BridgeResponse::ok(Vec::new()));
    assert_eq!(reply_bytes(step, ReplyPurpose::Write), reply(0, &[]));
    let NbdStep::Stop(Some(message)) =
        on_payload(&geometry(), waiting, Err("short".to_string()))
    else {
        panic!("stop");
    };
    assert_eq!(message, "failed to read write payload: short");
}

#[test]
fn flush_disconnect_and_unknown_commands() {
    let NbdStep::Submit(task) = header_step(3, 0, 0) else {
        panic!("submit");
    };
    assert!(matches!(task.command, BridgeCommand::Flush));
    let step = on_response(task.header, task.kind, BridgeResponse::ok(Vec::new()));
    assert_eq!(reply_bytes(step, ReplyPurpose::Flush), reply(0, &[]));

    let NbdStep::Submit(task) = header_step(2, 0, 0) else {
        panic!("submit");
    };
    let step = on_response(task.header, task.kind, BridgeResponse::ok(Vec::new()));
    assert!(matches!(step, NbdStep::Stop(None)));

    let step = header_step(4, 0, 4096);
    assert_eq!(reply_bytes(step, ReplyPurpose::Unsupported), reply(22, &[]));
}

fn handle_of(number: u8) -> [u8; 8] {
    [number; 8]
}

#[test]
fn every_request_but_a_disconnection_is_answered_once_and_in_order() {
    let requests = [(0, 0, 4096), (1, 4096, 4096), (3, 0, 0), (0, 1, 4096), (9, 0, 0), (1, 0, 5), (2, 0, 0)];
    let mut next = 0;
    let mut replies = Vec::new();
    let mut seen = Vec::new();
    let mut step = NbdStep::ReadHeader;
    loop {
        step = match step {
            NbdStep::ReadHeader => {
                let (cmd, offset, length) = requests[next];
                let raw = raw_header(0x2560_9513, cmd, handle_of(next as u8), offset, length);
                next += 1;
                on_header(&geometry(), HeaderInput::Raw(raw))
            }
            NbdStep::ReadPayload(header) => {
                let payload = vec![7; header.length_bytes as usize];
                on_payload(&geometry(), header, Ok(payload))
            }
            NbdStep::Submit(task) => {
                seen.push(task.kind);
                let response = match task.kind {
                    RequestKind::Read => BridgeResponse::ok(vec![5; 4096]),
                    RequestKind::Write => BridgeResponse { errno: 5, data: Vec::new() },
                    _ => BridgeResponse::ok(Vec::new()),
                };
                on_response(task.header, task.kind, response)
            }
            NbdStep::Reply(task) => {
                replies.push(task.bytes);
                on_reply(task.purpose, Ok(()))
            }
            NbdStep::Stop(error) => {
                assert_eq!(error, None);
                break;
            }
        };
    }
    assert_eq!(next, requests.len());
    let kinds =
        vec![RequestKind::Read, RequestKind::Write, RequestKind::Flush, RequestKind::Disconnect];
    assert_eq!(seen, kinds);
    let expected: Vec<Vec<u8>> = [(0, 4096), (5, 0), (0, 0), (22, 0), (22, 0), (22, 0)]
        .iter()
        .enumerate()
        .map(|(at, (errno, length))| encode_reply(handle_of(at as u8), *errno, &vec![5; *length]))
        .collect();
    assert_eq!(replies, expected);
}

#[test]
fn command_flags_are_ignored() {
    assert!(matches!(header_step(0x0001_0003, 0, 0), NbdStep::Submit(_)));
}

#[test]
fn reply_that_cannot_be_sent_stops_the_loop() {
    assert!(matches!(on_reply(ReplyPurpose::Read, Ok(())), NbdStep::ReadHeader));
    let expected = [
        (ReplyPurpose::ReadError, "failed to write read error reply: x"),
        (ReplyPurpose::ReadSize, "failed to write read-size error reply: x"),
        (ReplyPurpose::Read, "failed to write read reply: x"),
        (ReplyPurpose::WriteError, "failed to write write error reply: x"),
        (ReplyPurpose::Write, "failed to write write reply: x"),
        (ReplyPurpose::Flush, "failed to write flush reply: x"),
        (ReplyPurpose::Unsupported, "failed to write unsupported-cmd reply: x"),
    ];
    for (purpose, text) in expected {
        let NbdStep::Stop(Some(message)) = on_reply(purpose, Err("x".to_string())) else {
            panic!("stop");
        };
        assert_eq!(message, text);
    }
}

#[test]
fn negative_error_numbers_are_sent_as_io_errors() {
    assert_eq!(encode_reply(*b"abcdefgh", -1, &[]), reply(5, &[]));
    assert_eq!(encode_reply(*b"abcdefgh", 28, &[1, 2]), reply(28, &[1, 2]));
}

#[test]
fn ranges_are_checked_against_the_volume() {
    let g = geometry();
    assert_eq!(validate_range(&g, 0, 4096), Ok(()));
    assert_eq!(validate_range(&g, (1 << 20) - 4096, 4096), Ok(()));
    assert_eq!(validate_range(&g, 0, 0), Err(libc::EINVAL));
    assert_eq!(validate_range(&g, 1, 4096), Err(libc::EINVAL));
    assert_eq!(validate_range(&g, 0, 4097), Err(libc::EINVAL));
    assert_eq!(validate_range(&g, 1 << 20, 4096), Err(libc::EINVAL));
    assert_eq!(validate_range(&g, u64::MAX - 4095, 8192), Err(libc::EINVAL));
}

#[test]
fn device_is_set_up_in_order() {
    let plan = configure_device(&geometry(), 30, 7);
    let calls: Vec<(u32, usize)> = plan.calls.iter().map(|c| (c.request, c.arg)).collect();
    assert_eq!(
        calls,
        vec![(0xAB01, 4096), (0xAB07, 256), (0xAB09, 30), (0xAB0A, 5), (0xAB00, 7)]
    );
    assert_eq!(plan.calls[0].failure, "NBD_SET_BLKSIZE failed");
    assert!(plan.error.is_none());

    let plan = configure_device(&geometry(), 0, -1);
    let calls: Vec<u32> = plan.calls.iter().map(|c| c.request).collect();
    assert_eq!(calls, vec![0xAB01, 0xAB07, 0xAB0A]);
    assert_eq!(plan.error.as_deref(), Some("socket fd does not fit ioctl arg"));
    assert_eq!(teardown_calls(), vec![0xAB08, 0xAB05, 0xAB04]);
}

#[test]
fn end_of_the_device_call_is_judged_by_its_error_number() {
    assert_eq!(do_it_result(0, 0, "fine"), Ok(()));
    for errno in [libc::ENOTCONN, libc::EINVAL, libc::EPIPE] {
        assert_eq!(do_it_result(-1, errno, "cleared"), Ok(()));
    }
    assert_eq!(do_it_result(-1, libc::EIO, "bad"), Err("NBD_DO_IT failed: bad".to_string()));
    assert_eq!(do_it_result_given(-1, 99, 99, "cleared"), Ok(()));
    assert_eq!(
        do_it_result_given(-1, 98, 99, "bad"),
        Err("NBD_DO_IT failed: bad".to_string())
    );
}

#[test]
fn outcome_of_serving() {
    let texts = |m: &[&str]| Err(m.iter().map(|t| t.to_string()).collect::<Vec<_>>());
    assert_eq!(serve_outcome(DoItEnd::Finished(Ok(())), None), Ok(()));
    assert_eq!(
        serve_outcome(DoItEnd::Finished(Ok(())), Some("loop".to_string())),
        texts(&["loop"])
    );
    assert_eq!(
        serve_outcome(DoItEnd::Finished(Err("call".to_string())), None),
        texts(&["call"])
    );
    assert_eq!(
        serve_outcome(DoItEnd::Finished(Err("call".to_string())), Some("loop".to_string())),
        texts(&["NBD_DO_IT also failed: call", "loop"])
    );
    assert_eq!(
        serve_outcome(DoItEnd::Panicked, Some("loop".to_string())),
        texts(&["NBD_DO_IT thread panicked"])
    );
}

#[test]
fn host_is_checked_before_serving() {
    assert_eq!(preflight(true, true, true, "/dev/nbd0"), Ok(()));
    assert_eq!(
        preflight(false, true, true, "/dev/nbd0"),
        Err("attach mode is only supported on Linux hosts".to_string())
    );
    assert_eq!(
        preflight(true, false, true, "/dev/nbd0"),
        Err("NBD device /dev/nbd0 does not exist".to_string())
    );
    assert_eq!(
        preflight(true, true, false, "/dev/nbd0"),
        Err(
            "nbd kernel module is not loaded (missing /sys/module/nbd). Run: sudo modprobe nbd max_part=0"
                .to_string()
        )
    );
}

#[test]
fn checked_ranges_are_whole_blocks_of_the_volume() {
    for (offset, length) in [(0, 4096), (8192, 12288), ((1 << 20) - 4096, 4096)] {
        assert_eq!(validate_range(&geometry(), offset, length), Ok(()));
        let (lba, count) = offset_len_to_lba(offset, u64::from(length), 4096).expect("whole blocks");
        assert!(count > 0);
        assert!(lba + u64::from(count) <= geometry().total_blocks);
        assert_eq!((lba * 4096, count * 4096), (offset, length));
    }
}
