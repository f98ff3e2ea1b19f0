//! AES-GCM encryption of payloads, AES block encryption of 16-byte values,
//! and the decoding of an assembled chunk pipe into a customer id and a
//! message.
use vstd::prelude::*;
use aes_gcm::aead::Aead;
use aes_gcm::aes::cipher::BlockEncrypt;
use aes_gcm::KeyInit;
use crate::buffers::{MsgPipe, pipe_len, pipe_row, pipe_rows};

verus! {

#[verifier::external_type_specification]
#[verifier::external_body]
pub struct ExAeadError(aes_gcm::Error);

/// The largest plaintext, in bytes, that AES-GCM accepts (`aes_gcm::P_MAX`).
pub const PLAINTEXT_MAX: u64 = 68719476736;

/// What AES-128-GCM produces for `plaintext` under `key` and `nonce`, with no
/// associated data: the ciphertext followed by the 16-byte tag.
pub uninterp spec fn aes128_gcm_seal(key: Seq<u8>, nonce: Seq<u8>, plaintext: Seq<u8>) -> Seq<u8>;

/// What AES-128 makes of one 16-byte block under `key`.
pub uninterp spec fn aes128_block(key: Seq<u8>, block: Seq<u8>) -> Seq<u8>;

/// Why an encryption was refused.
#[derive(Debug, Clone, Copy, PartialEq, Eq)]
pub enum EncryptError {
    /// The payload is longer than AES-GCM accepts.
    PayloadTooLong,
}

/// `Aead::encrypt` of `aes_gcm::Aes128Gcm`, keyed by `Key::from_slice(key)`,
/// under `Nonce::from_slice(nonce)` and with no associated data. As the
/// crate's source shows, it fails exactly when the plaintext is longer than
/// `P_MAX`, and otherwise returns the ciphertext (as long as the plaintext)
/// followed by a 16-byte tag; the bytes themselves are named by
/// `aes128_gcm_seal`.
#[verifier::external_body]
fn aes128_gcm_encrypt(key: &[u8], nonce: &[u8], data: &[u8]) -> (r: Result<Vec<u8>, aes_gcm::Error>)
    requires
        key@.len() == 16,
        nonce@.len() == 12,
    ensures
        r is Ok <==> data@.len() <= PLAINTEXT_MAX,
        r matches Ok(c) ==> c@ == aes128_gcm_seal(key@, nonce@, data@),
        r matches Ok(c) ==> c@.len() == data@.len() + 16,
{
    let cipher = aes_gcm::Aes128Gcm::new(aes_gcm::Key::<aes_gcm::Aes128Gcm>::from_slice(key));
    cipher.encrypt(aes_gcm::Nonce::from_slice(nonce), data)
}

/// `BlockEncrypt::encrypt_block` of `aes_gcm::aes::Aes128`, keyed with `key`,
/// on the 16-byte `block`; the result is named by `aes128_block`.
#[verifier::external_body]
fn aes128_encrypt_block(key: &[u8; 16], block: [u8; 16]) -> (r: [u8; 16])
    ensures
        r@ == aes128_block(key@, block@),
{
    let cipher = aes_gcm::aes::Aes128::new(key.into());
    let mut b = block.into();
    cipher.encrypt_block(&mut b);
    b.into()
}

/// `String::push`: appends `c` to `s`.
#[verifier::external_body]
fn string_push(s: &mut String, c: char)
    ensures
        final(s)@ == old(s)@.push(c),
{
    s.push(c)
}

/// The nonce followed by the ciphertext, as `encrypt` frames its output.
pub fn prepend_nonce(nonce: &[u8], ciphertext: &[u8]) -> (r: Vec<u8>)
    ensures
        r@ == nonce@ + ciphertext@,
{
    let mut result: Vec<u8> = Vec::new();
    for i in 0..nonce.len()
        invariant
            result@ == nonce@.take(i as int),
    {
        result.push(nonce[i]);
        assert(nonce@.take(i + 1) == nonce@.take(i as int).push(nonce@[i as int]));
    }
    assert(nonce@.take(nonce@.len() as int) == nonce@);
    for j in 0..ciphertext.len()
        invariant
            result@ == nonce@ + ciphertext@.take(j as int),
    {
        result.push(ciphertext[j]);
        assert(ciphertext@.take(j + 1) == ciphertext@.take(j as int).push(ciphertext@[j as int]));
    }
    assert(ciphertext@.take(ciphertext@.len() as int) == ciphertext@);
    result
}

/// Encrypts `data` with AES-128-GCM under `key` and the all-zero nonce, and
/// returns the 12-byte nonce followed by the ciphertext and tag. Fails exactly
/// when `data` is longer than AES-GCM accepts.
pub fn encrypt(data: &[u8], key: &[u8]) -> (r: Result<Vec<u8>, EncryptError>)
    requires
        key@.len() == 16,
    ensures
        r is Ok <==> data@.len() <= PLAINTEXT_MAX,
        r matches Ok(v) ==> v@ == Seq::new(12, |i: int| 0u8) + aes128_gcm_seal(key@, Seq::new(12, |i: int| 0u8), data@),
        r matches Ok(v) ==> v@.len() == data@.len() + 28,
        r matches Err(e) ==> e == EncryptError::PayloadTooLong,
{
    let nonce: [u8; 12] = [0u8; 12];
    assert(nonce@ == Seq::new(12, |i: int| 0u8));
    match aes128_gcm_encrypt(key, &nonce, data) {
        Ok(ciphertext) => Ok(prepend_nonce(&nonce, &ciphertext)),
        Err(_) => Err(EncryptError::PayloadTooLong),
    }
}

/// Encrypts one 16-byte block with AES-128 under `key`.
pub fn aes_cipher(msg: [u8; 16], key: &[u8; 16]) -> (r: [u8; 16])
    ensures
        r@ == aes128_block(key@, msg@),
{
    aes128_encrypt_block(key, msg)
}

/// Each byte read as the character of the same code point (Latin-1).
pub open spec fn latin1(bytes: Seq<u8>) -> Seq<char> {
    bytes.map_values(|b: u8| b as char)
}

/// The pipe can be decoded: its first chunk holds at least 12 bytes, its
/// second at least 11, its fifteenth at least 4 (where they exist).
pub open spec fn pipe_decodable(rows: Seq<Seq<u8>>) -> bool {
    &&& rows.len() > 0 ==> rows[0].len() >= 12
    &&& rows.len() > 1 ==> rows[1].len() >= 11
    &&& rows.len() > 14 ==> rows[14].len() >= 4
}

/// The customer id carried by the first `n` chunks: bytes 4..12 and 12.. of
/// chunk 0, bytes 3..7 and 7..11 of chunk 1, and bytes 4.. of chunk 14, the
/// pieces separated by dashes.
pub open spec fn customer_id_upto(rows: Seq<Seq<u8>>, n: int) -> Seq<char> {
    (if n > 0 {
        latin1(rows[0].subrange(4, 12)) + seq!['-'] + latin1(rows[0].subrange(12, rows[0].len() as int))
    } else {
        Seq::<char>::empty()
    }) + (if n > 1 {
        seq!['-'] + latin1(rows[1].subrange(3, 7)) + seq!['-'] + latin1(rows[1].subrange(7, 11))
    } else {
        Seq::<char>::empty()
    }) + (if n > 14 {
        seq!['-'] + latin1(rows[14].subrange(4, rows[14].len() as int))
    } else {
        Seq::<char>::empty()
    })
}

/// The customer id carried by a pipe.
pub open spec fn customer_id(rows: Seq<Seq<u8>>) -> Seq<char> {
    customer_id_upto(rows, rows.len() as int)
}

/// Chunk `i` is part of the id, not of the message.
pub open spec fn is_id_chunk(i: int) -> bool {
    i == 0 || i == 1 || i == 14
}

/// The message carried by a pipe: every chunk but chunks 0, 1 and 14, in order.
pub open spec fn pipe_message(rows: Seq<Seq<u8>>) -> Seq<char>
    decreases rows.len(),
{
    if rows.len() == 0 {
        Seq::<char>::empty()
    } else {
        pipe_message(rows.drop_last()) + (if is_id_chunk(rows.len() - 1) {
            Seq::<char>::empty()
        } else {
            latin1(rows.last())
        })
    }
}

/// Appends the characters of `bytes[from..to]` to `s`.
fn push_latin1(s: &mut String, bytes: &Vec<u8>, from: usize, to: usize)
    requires
        from <= to <= bytes@.len(),
    ensures
        final(s)@ == old(s)@ + latin1(bytes@.subrange(from as int, to as int)),
{
    let ghost start = s@;
    for j in from..to
        invariant
            to <= bytes@.len(),
            s@ == start + latin1(bytes@.subrange(from as int, j as int)),
    {
        string_push(s, bytes[j] as char);
        assert(latin1(bytes@.subrange(from as int, j + 1)) == latin1(bytes@.subrange(from as int, j as int)).push(bytes@[j as int] as char));
    }
}

/// Whether `process_encrypt_msg` can decode the pipe: its first chunk holds
/// at least 12 bytes, its second at least 11, its fifteenth at least 4.
pub fn pipe_is_decodable(data: &MsgPipe) -> (r: bool)
    ensures
        r == pipe_decodable(pipe_rows(*data)),
{
    let n = pipe_len(data);
    if n > 0 && pipe_row(data, 0).len() < 12 {
        return false;
    }
    if n > 1 && pipe_row(data, 1).len() < 11 {
        return false;
    }
    if n > 14 && pipe_row(data, 14).len() < 4 {
        return false;
    }
    true
}

/// Splits an assembled pipe into the customer id and the message it carries.
pub fn process_encrypt_msg(data: &MsgPipe) -> (r: (String, String))
    requires
        pipe_decodable(pipe_rows(*data)),
    ensures
        r.0@ == customer_id(pipe_rows(*data)),
        r.1@ == pipe_message(pipe_rows(*data)),
{
    let ghost rows = pipe_rows(*data);
    let mut id = String::new();
    let mut msg = String::new();
    let n = pipe_len(data);
    for i in 0..n
        invariant
            n == rows.len(),
            rows == pipe_rows(*data),
            pipe_decodable(rows),
            id@ == customer_id_upto(rows, i as int),
            msg@ == pipe_message(rows.take(i as int)),
    {
        let row = pipe_row(data, i);
        assert(rows.take(i + 1).drop_last() == rows.take(i as int));
        if i == 0 {
            let len = row.len();
            push_latin1(&mut id, &row, 4, 12);
            string_push(&mut id, '-');
            push_latin1(&mut id, &row, 12, len);
            assert(id@ == customer_id_upto(rows, 1));
        } else if i == 1 {
            string_push(&mut id, '-');
            push_latin1(&mut id, &row, 3, 7);
            string_push(&mut id, '-');
            push_latin1(&mut id, &row, 7, 11);
            assert(id@ == customer_id_upto(rows, 2));
        } else if i == 14 {
            let len = row.len();
            string_push(&mut id, '-');
            push_latin1(&mut id, &row, 4, len);
            assert(id@ == customer_id_upto(rows, 15));
        } else {
            let len = row.len();
            push_latin1(&mut msg, &row, 0, len);
            assert(row@.subrange(0, len as int) == row@);
            assert(customer_id_upto(rows, i + 1) == customer_id_upto(rows, i as int));
        }
    }
    assert(rows.take(n as int) == rows);
    (id, msg)
}

} // verus!
