use metal_terminal::buffers::MsgPipe;
use metal_terminal::cloud::client::status_succeeded;
use metal_terminal::cloud::pipe::payment_request;

fn pipe(rows: &[&[u8]]) -> MsgPipe {
    let mut p: MsgPipe = heapless::Vec::new();
    for r in rows {
        p.push(heapless::Vec::from_slice(r).unwrap()).unwrap();
    }
    p
}

#[test]
fn success_statuses() {
    assert!(status_succeeded(200));
    assert!(status_succeeded(299));
    assert!(!status_succeeded(199));
    assert!(!status_succeeded(300));
    assert!(!status_succeeded(404));
}

#[test]
fn payment_request_from_pipe() {
    let p = (pipe(&[b"HEADabcdefgh1234", b"xyz1234567890", b"hello", b"TAIL"]), 77i64);
    let req = payment_request(&p, "dev-1", vec![1, 2, 3]).unwrap();
    assert_eq!(req.customer_id, "abcdefgh-1234-1234-5678");
    assert_eq!(req.pipe, "helloTAIL");
    assert_eq!(req.device_id, "dev-1");
    assert_eq!(req.encrypted_price, vec![1, 2, 3]);
    assert_eq!(req.time, 77);
}

#[test]
fn payment_request_refuses_short_id() {
    let p = (pipe(&[b"HEAD"]), 0i64);
    assert!(payment_request(&p, "dev-1", vec![]).is_none());
}
