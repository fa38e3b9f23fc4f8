use noted_core::approval_broker::{
    broker_operation, check_broker_version, finish_frame, frame_chunk, BrokerOp, FrameStep,
    MAX_BROKER_MESSAGE,
};

fn read_all(chunks: &[&[u8]]) -> Result<Vec<u8>, String> {
    let mut output = Vec::new();
    for chunk in chunks {
        match frame_chunk(&mut output, chunk) {
            FrameStep::More => continue,
            FrameStep::Complete => break,
            FrameStep::TooLarge => return finish_frame(&output).map(|_| output),
        }
    }
    finish_frame(&output).map(|_| output)
}

#[test]
fn a_request_ends_at_its_first_line_feed() {
    let mut output = b"{\"op\":".to_vec();
    assert_eq!(frame_chunk(&mut output, b"\"ping\"}\nignored\n"), FrameStep::Complete);
    assert_eq!(output, b"{\"op\":\"ping\"}".to_vec());
}

#[test]
fn split_reads_frame_the_same_request_as_one_read() {
    let whole = read_all(&[b"{\"version\":1}\ntrailing"]).unwrap();
    let split = read_all(&[b"{\"ver", b"sion\"", b":1}\ntrail", b"ing"]).unwrap();
    assert_eq!(whole, split);
    assert_eq!(whole, b"{\"version\":1}".to_vec());
}

#[test]
fn the_stream_end_completes_an_unterminated_request() {
    let mut output = b"abc".to_vec();
    assert_eq!(frame_chunk(&mut output, b""), FrameStep::Complete);
    assert_eq!(output, b"abc".to_vec());
    assert_eq!(read_all(&[b"abc", b""]).unwrap(), b"abc".to_vec());
}

#[test]
fn empty_and_oversized_requests_are_refused() {
    assert_eq!(read_all(&[b""]).unwrap_err(), "empty agent broker request");
    assert_eq!(read_all(&[b"\n"]).unwrap_err(), "empty agent broker request");
    let big = vec![b'x'; MAX_BROKER_MESSAGE + 1];
    let mut output = Vec::new();
    assert_eq!(frame_chunk(&mut output, &big), FrameStep::TooLarge);
    assert_eq!(finish_frame(&output).unwrap_err(), "agent broker request is too large");
    let exact = vec![b'x'; MAX_BROKER_MESSAGE];
    let mut output = Vec::new();
    assert_eq!(frame_chunk(&mut output, &exact), FrameStep::More);
    assert!(finish_frame(&output).is_ok());
    let mut terminated = vec![b'x'; MAX_BROKER_MESSAGE + 1];
    terminated.push(b'\n');
    assert_eq!(read_all(&[&terminated]).unwrap_err(), "agent broker request is too large");
}

#[test]
fn only_version_one_and_the_four_operations_are_served() {
    assert!(check_broker_version(1).is_ok());
    assert_eq!(
        check_broker_version(2).unwrap_err(),
        "unsupported Noted broker protocol version"
    );
    assert_eq!(broker_operation("ping"), Ok(BrokerOp::Ping));
    assert_eq!(broker_operation("request_context"), Ok(BrokerOp::RequestContext));
    assert_eq!(broker_operation("context_request_status"), Ok(BrokerOp::RequestStatus));
    assert_eq!(broker_operation("read_context_pass"), Ok(BrokerOp::ReadPass));
    assert_eq!(
        broker_operation("delete_everything").unwrap_err(),
        "unknown Noted broker operation"
    );
}
