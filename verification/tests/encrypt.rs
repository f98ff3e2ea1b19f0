use metal_terminal::encrypt::{aes_cipher, encrypt, pipe_is_decodable, prepend_nonce, process_encrypt_msg};
use metal_terminal::buffers::MsgPipe;

fn hex(s: &str) -> Vec<u8> {
    (0..s.len()).step_by(2).map(|i| u8::from_str_radix(&s[i..i + 2], 16).unwrap()).collect()
}

#[test]
fn encrypt_empty_payload_is_nonce_and_tag() {
    let key = [0u8; 16];
    let out = encrypt(&[], &key).unwrap();
    let mut expected = vec![0u8; 12];
    expected.extend(hex("58e2fccefa7e3061367f1d57a4e7455a"));
    assert_eq!(out, expected);
}

#[test]
fn encrypt_zero_block_matches_known_vector() {
    let key = [0u8; 16];
    let out = encrypt(&[0u8; 16], &key).unwrap();
    assert_eq!(out.len(), 16 + 28);
    assert_eq!(&out[..12], &[0u8; 12]);
    assert_eq!(&out[12..28], hex("0388dace60b6a392f328c2b971b2fe78").as_slice());
    assert_eq!(&out[28..], hex("ab6e47d42cec13bdf53a67b21257bddf").as_slice());
}

#[test]
fn aes_cipher_matches_known_vector() {
    let out = aes_cipher([0u8; 16], &[0u8; 16]);
    assert_eq!(out.to_vec(), hex("66e94bd4ef8a2c3b884cfa59ca342b2e"));
    assert_ne!(out, [0u8; 16]);
}

#[test]
fn prepend_nonce_concatenates() {
    assert_eq!(prepend_nonce(&[1, 2], &[3, 4, 5]), vec![1, 2, 3, 4, 5]);
    assert_eq!(prepend_nonce(&[], &[]), Vec::<u8>::new());
}

fn pipe(rows: &[&[u8]]) -> MsgPipe {
    let mut p: MsgPipe = heapless::Vec::new();
    for r in rows {
        p.push(heapless::Vec::from_slice(r).unwrap()).unwrap();
    }
    p
}

#[test]
fn process_encrypt_msg_splits_id_and_message() {
    let p = pipe(&[b"HEADabcdefgh1234", b"xyz1234567890", b"hello", b"", b"TAIL"]);
    assert!(pipe_is_decodable(&p));
    let (id, msg) = process_encrypt_msg(&p);
    assert_eq!(id, "abcdefgh-1234-1234-5678");
    assert_eq!(msg, "helloTAIL");
}

#[test]
fn process_encrypt_msg_reads_fifteenth_chunk_into_id() {
    let mut rows: Vec<&[u8]> = vec![b"HEAD12345678", b"abc12345678"];
    for _ in 2..14 {
        rows.push(b"m");
    }
    rows.push(b"skipZZ");
    rows.push(b"end");
    let p = pipe(&rows);
    let (id, msg) = process_encrypt_msg(&p);
    assert_eq!(id, "12345678--1234-5678-ZZ");
    assert_eq!(msg, "mmmmmmmmmmmmend");
}

#[test]
fn process_encrypt_msg_empty_and_single() {
    let (id, msg) = process_encrypt_msg(&pipe(&[]));
    assert_eq!((id.as_str(), msg.as_str()), ("", ""));
    let (id, msg) = process_encrypt_msg(&pipe(&[b"HEADabcdefgh"]));
    assert_eq!((id.as_str(), msg.as_str()), ("abcdefgh-", ""));
}

#[test]
fn process_encrypt_msg_bytes_as_latin1() {
    let (id, _) = process_encrypt_msg(&pipe(&[&[0, 0, 0, 0, 0xe9, b'a', b'b', b'c', b'd', b'e', b'f', b'g']]));
    assert_eq!(id, "\u{e9}abcdefg-");
}

#[test]
fn short_id_chunks_are_not_decodable() {
    assert!(!pipe_is_decodable(&pipe(&[b"HEADabc"])));
    assert!(!pipe_is_decodable(&pipe(&[b"HEADabcdefgh", b"short"])));
    assert!(pipe_is_decodable(&pipe(&[b"HEADabcdefgh", b"01234567890"])));
}
