use metal_terminal::buffers::MsgPipe;
use metal_terminal::jinx::{chunk_kind, contains_conn, ChunkError, ChunkKind};
use metal_terminal::state::Conn;

fn rows(p: &MsgPipe) -> Vec<Vec<u8>> {
    p.iter().map(|r| r.to_vec()).collect()
}

#[test]
fn chunk_kind_finds_markers() {
    assert_eq!(chunk_kind(b"xxHEADyy"), ChunkKind::Head);
    assert_eq!(chunk_kind(b"TAIL"), ChunkKind::Tail);
    assert_eq!(chunk_kind(b"HEADTAIL"), ChunkKind::Head);
    assert_eq!(chunk_kind(b"HEA"), ChunkKind::Body);
    assert_eq!(chunk_kind(b""), ChunkKind::Body);
    assert_eq!(chunk_kind(b"head tail"), ChunkKind::Body);
}

#[test]
fn conn_new_is_empty() {
    let c = Conn::new(7, heapless::Vec::new());
    assert_eq!(c.id, 7);
    assert!(c.data.is_empty());
    assert_eq!(c.price_read, 0);
}

#[test]
fn take_data_empties() {
    let mut c = Conn::new(1, heapless::Vec::new());
    c.receive_chunk(ChunkKind::Head, 1, b"HEAD", 0);
    let d = c.take_data();
    assert_eq!(rows(&d), vec![b"HEAD".to_vec()]);
    assert!(c.data.is_empty());
}

#[test]
fn message_is_assembled_in_order() {
    let mut c = Conn::new(3, heapless::Vec::new());
    c.receive_chunk(ChunkKind::Body, 3, b"stale", 0);
    assert!(c.receive_chunk(ChunkKind::Head, 3, b"HEAD0001", 0).is_none());
    assert!(c.receive_chunk(ChunkKind::Body, 3, b"part", 5).is_none());
    let (p, t) = c.receive_chunk(ChunkKind::Tail, 3, b"TAIL", 42).unwrap();
    assert_eq!(rows(&p), vec![b"HEAD0001".to_vec(), b"part".to_vec(), b"TAIL".to_vec()]);
    assert_eq!(t, 42);
    assert!(c.data.is_empty());
}

#[test]
fn other_peers_chunks_are_ignored_but_tail_flushes() {
    let mut c = Conn::new(3, heapless::Vec::new());
    c.receive_chunk(ChunkKind::Head, 3, b"HEAD", 0);
    assert!(c.receive_chunk(ChunkKind::Body, 9, b"other", 0).is_none());
    assert!(c.receive_chunk(ChunkKind::Head, 9, b"HEADx", 0).is_none());
    assert_eq!(rows(&c.data), vec![b"HEAD".to_vec()]);
    let (p, _) = c.receive_chunk(ChunkKind::Tail, 9, b"TAIL", 0).unwrap();
    assert_eq!(rows(&p), vec![b"HEAD".to_vec()]);
    assert!(c.data.is_empty());
}

#[test]
fn elapsed_time_is_cast_to_i64() {
    let mut c = Conn::new(1, heapless::Vec::new());
    let (_, t) = c.receive_chunk(ChunkKind::Tail, 2, b"TAIL", (1u128 << 64) + 5).unwrap();
    assert_eq!(t, 5);
}

#[test]
fn accept_chunk_rejects_long_chunk() {
    let mut c = Conn::new(1, heapless::Vec::new());
    assert_eq!(c.accept_chunk(ChunkKind::Body, 1, &[0u8; 17], 0).unwrap_err(), ChunkError::TooLong);
    assert!(c.data.is_empty());
    assert!(c.accept_chunk(ChunkKind::Body, 2, &[0u8; 17], 0).unwrap().is_none());
}

#[test]
fn accept_chunk_rejects_full_pipe() {
    let mut c = Conn::new(1, heapless::Vec::new());
    c.accept_chunk(ChunkKind::Head, 1, b"HEAD", 0).unwrap();
    for _ in 0..19 {
        c.accept_chunk(ChunkKind::Body, 1, b"x", 0).unwrap();
    }
    assert_eq!(c.data.len(), 20);
    assert_eq!(c.accept_chunk(ChunkKind::Body, 1, b"y", 0).unwrap_err(), ChunkError::PipeFull);
    assert_eq!(c.accept_chunk(ChunkKind::Tail, 1, b"TAIL", 0).unwrap_err(), ChunkError::PipeFull);
    assert!(c.accept_chunk(ChunkKind::Head, 1, b"HEAD", 0).unwrap().is_none());
    assert_eq!(c.data.len(), 1);
}

#[test]
fn contains_conn_finds_first() {
    let conns = vec![Conn::new(4, heapless::Vec::new()), Conn::new(5, heapless::Vec::new()), Conn::new(5, heapless::Vec::new())];
    assert_eq!(contains_conn(&conns, &5), (true, 1));
    assert_eq!(contains_conn(&conns, &4), (true, 0));
    assert_eq!(contains_conn(&conns, &6), (false, 0));
    assert_eq!(contains_conn(&[], &6), (false, 0));
}

#[test]
fn conn_new_at_keeps_instant() {
    let now = std::time::Instant::now();
    let c = Conn::new_at(2, heapless::Vec::new(), now);
    assert_eq!(c.time, now);
    assert_eq!(c.id, 2);
    assert!(c.data.is_empty());
}
