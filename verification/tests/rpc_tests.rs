use roboplc_middleware::workers::rpc::connection::EndStep;
use roboplc_middleware::messages::Operation;
use roboplc_middleware::workers::rpc::cleanup::timed_out_requests;
use roboplc_middleware::workers::rpc::connection::{
    JsonFrameScanner, ReadStep, RequestReader, INITIAL_TIMEOUT_MS, MAX_REQUEST_SIZE,
    SUBSEQUENT_TIMEOUT_MS,
};
use roboplc_middleware::workers::rpc::handler::{answer_from_reply, ControlAnswer, RpcMethodKind};

#[test]
fn scanner_detects_a_complete_object() {
    let mut s = JsonFrameScanner::new();
    s.feed(br#"{"m":"ping","#);
    assert!(!s.is_complete());
    s.feed(br#""p":{}}"#);
    assert!(s.is_complete());
}

#[test]
fn scanner_ignores_brackets_in_strings_and_escapes() {
    let mut s = JsonFrameScanner::new();
    s.feed(br#"{"a":"}\"]{""#);
    assert!(!s.is_complete());
    s.feed(b"}");
    assert!(s.is_complete());
    let mut t = JsonFrameScanner::new();
    t.feed(b"   ");
    assert!(!t.is_complete());
    t.feed(b"[1,[2]]");
    assert!(t.is_complete());
}

#[test]
fn scanning_in_pieces_matches_scanning_at_once() {
    let text = br#"{"m":"write_signal_group","p":{"data":{"x":"a}b\\"}}}"#;
    let mut whole = JsonFrameScanner::new();
    whole.feed(text);
    for cut in 0..text.len() {
        let mut pieces = JsonFrameScanner::new();
        pieces.feed(&text[..cut]);
        pieces.feed(&text[cut..]);
        assert_eq!(pieces.is_complete(), whole.is_complete());
    }
    assert!(whole.is_complete());
}

#[test]
fn reader_waits_longer_for_the_first_read() {
    let mut r = RequestReader::new();
    assert_eq!(r.next_timeout_ms(), INITIAL_TIMEOUT_MS);
    assert_eq!(r.next_timeout_ms(), SUBSEQUENT_TIMEOUT_MS);
    assert_eq!(r.next_timeout_ms(), 50);
}

#[test]
fn reader_completes_and_refuses_large_requests() {
    let mut r = RequestReader::new();
    assert_eq!(r.on_data(b"{\"m\":"), ReadStep::Continue);
    assert_eq!(r.on_data(b"\"ping\"}"), ReadStep::Complete);
    assert_eq!(r.payload().as_slice(), b"{\"m\":\"ping\"}");
    let mut big = RequestReader::new();
    let chunk = vec![b' '; 4096];
    let mut steps = 0;
    loop {
        let step = big.on_data(&chunk);
        steps += 1;
        if step != ReadStep::Continue {
            assert_eq!(step, ReadStep::TooLarge);
            break;
        }
    }
    assert_eq!(steps * 4096, MAX_REQUEST_SIZE + 4096);
}

#[test]
fn method_names_and_operations() {
    assert_eq!(RpcMethodKind::Ping.name(), "ping");
    assert_eq!(RpcMethodKind::GetDeviceList.name(), "get_device_list");
    assert_eq!(RpcMethodKind::WriteSignalGroup.name(), "write_signal_group");
    assert_eq!(RpcMethodKind::GetStatus.operation(), Some(Operation::GetStatus));
    assert_eq!(RpcMethodKind::ReadSignalGroup.operation(), Some(Operation::ReadSignalGroup));
    assert_eq!(RpcMethodKind::GetVersion.operation(), None);
}

#[test]
fn replies_become_answers() {
    assert_eq!(answer_from_reply(Some((true, 5, None))), ControlAnswer::Data(5));
    assert_eq!(
        answer_from_reply(Some((false, 5, Some("bad".to_string())))),
        ControlAnswer::Error("bad".to_string())
    );
    assert_eq!(answer_from_reply::<i32>(Some((false, 5, None))), ControlAnswer::Error("Unknown error".to_string()));
    assert_eq!(answer_from_reply::<i32>(None), ControlAnswer::Error("Request timed out".to_string()));
}

#[test]
fn cleanup_removes_timed_out_requests() {
    let pending = vec![(1u64, 0u64), (2, 10_000), (3, 60_000), (4, 100_000)];
    assert_eq!(timed_out_requests(&pending, 50_000), vec![1, 2]);
    assert_eq!(timed_out_requests(&pending, 35_000), Vec::<u64>::new());
    assert_eq!(timed_out_requests(&pending, 35_001), vec![1]);
}

#[test]
fn silent_connection_ends_without_answer() {
    let reader = RequestReader::new();
    assert_eq!(reader.on_end(), EndStep::Nothing);
    let mut reader = RequestReader::new();
    assert_eq!(reader.on_data(br#"{"a":1}"#), ReadStep::Complete);
    assert_eq!(reader.on_end(), EndStep::Answer(br#"{"a":1}"#.to_vec()));
}
