//! The driver/customer link of the terminal: who may set the price, and the
//! one-shot hand-out of the encrypted price and device id to a customer.
use vstd::prelude::*;
use crate::buffers::{Chars11, chars11, chars11_get, chars11_len, chars11_new, chars11_push};
use crate::encrypt::{aes_cipher, aes128_block, latin1};

verus! {

/// The keypad-side state the driver link reads and changes.
pub struct KeypadState {
    /// A price is waiting to be handed to a customer.
    pub has_msg: bool,
    /// The keypad accepts input.
    pub can_type: bool,
    /// The driver cancelled the current entry.
    pub cancel: bool,
    /// The price was handed to a customer.
    pub sent: bool,
    /// The price as typed.
    pub msg: Chars11,
}

/// One peer slot: whether a peer holds it and its connection handle.
#[derive(Debug, Clone, Copy, PartialEq, Eq)]
pub struct PeerLink {
    pub connected: bool,
    pub conn: u16,
}

/// Who a peer proved to be when it registered.
#[derive(Debug, Clone, Copy, PartialEq, Eq)]
pub enum DeviceUser {
    Driver,
    User,
    Unrecognised,
}

/// The 16-byte block that carries a typed price: one byte per character
/// (its code point truncated to 8 bits), padded with `a`.
pub open spec fn price_block(msg: Seq<char>) -> Seq<u8> {
    Seq::new(16, |i: int| if i < msg.len() { msg[i] as u8 } else { 97u8 })
}

/// The block `get_msg` answers with when there is nothing to hand out.
pub open spec fn filler_block() -> Seq<u8> {
    Seq::new(16, |i: int| 97u8)
}

/// A price is handed out: one is waiting and `conn` is the customer holding
/// the price slot.
pub open spec fn msg_deliverable(keypad_has_msg: bool, link: PeerLink, conn: u16) -> bool {
    keypad_has_msg && link.connected && link.conn == conn
}

/// A device id is handed out: the customer holding the slot asks.
pub open spec fn device_id_deliverable(link: PeerLink, conn: u16) -> bool {
    link.connected && link.conn == conn
}

/// The answer to a device-id read by `conn`.
pub open spec fn device_id_reply(link: PeerLink, conn: u16, device_id: Seq<u8>, key: Seq<u8>) -> Seq<u8> {
    if device_id_deliverable(link, conn) {
        aes128_block(key, device_id)
    } else {
        Seq::new(16, |i: int| 0u8)
    }
}

/// The device-id slot after a read: released whenever a peer held it.
pub open spec fn link_after_device_id(link: PeerLink) -> PeerLink {
    if link.connected { PeerLink { connected: false, conn: 0 } } else { link }
}

/// The answer to a price read by `conn`.
pub open spec fn msg_reply(has_msg: bool, link: PeerLink, conn: u16, msg: Seq<char>, key: Seq<u8>) -> Seq<u8> {
    if msg_deliverable(has_msg, link, conn) {
        aes128_block(key, price_block(msg))
    } else {
        filler_block()
    }
}

/// The price slot after a price read by `conn`: released when the price was
/// handed out.
pub open spec fn link_after_msg(has_msg: bool, link: PeerLink, conn: u16) -> PeerLink {
    if msg_deliverable(has_msg, link, conn) { PeerLink { connected: false, conn: 0 } } else { link }
}

/// Whether a price is still waiting after a price read by `conn`.
pub open spec fn has_msg_after(has_msg: bool, link: PeerLink, conn: u16) -> bool {
    has_msg && !msg_deliverable(has_msg, link, conn)
}

/// Answers a price read by peer `conn`: the typed price encrypted with `key`
/// when a price is waiting and `conn` holds the price slot (the slot is then
/// released, the price marked as sent and the keypad locked); the filler
/// block otherwise, with nothing changed.
pub fn get_msg(keypad: &mut KeypadState, connected: &mut PeerLink, conn: &u16, key: &[u8; 16]) -> (r: [u8; 16])
    ensures
        r@ == msg_reply(old(keypad).has_msg, *old(connected), *conn, chars11(old(keypad).msg), key@),
        *final(connected) == link_after_msg(old(keypad).has_msg, *old(connected), *conn),
        final(keypad).has_msg == has_msg_after(old(keypad).has_msg, *old(connected), *conn),
        msg_deliverable(old(keypad).has_msg, *old(connected), *conn) ==> final(keypad).sent && !final(keypad).can_type,
        !msg_deliverable(old(keypad).has_msg, *old(connected), *conn) ==>
            final(keypad).sent == old(keypad).sent && final(keypad).can_type == old(keypad).can_type,
        final(keypad).cancel == old(keypad).cancel,
        final(keypad).msg == old(keypad).msg,
{
    let mut msg: [u8; 16] = [97u8; 16];
    if keypad.has_msg {
        if connected.connected {
            if connected.conn == *conn {
                let n = chars11_len(&keypad.msg);
                let ghost chars = chars11(keypad.msg);
                for i in 0..n
                    invariant
                        n == chars.len(),
                        n <= 11,
                        chars == chars11(keypad.msg),
                        msg@.len() == 16,
                        forall|k: int| 0 <= k < i ==> msg@[k] == chars[k] as u8,
                        forall|k: int| i <= k < 16 ==> msg@[k] == 97u8,
                {
                    let c = chars11_get(&keypad.msg, i);
                    msg[i] = c as u8;
                }
                assert(msg@ == price_block(chars));
                msg = aes_cipher(msg, key);
                connected.connected = false;
                connected.conn = 0;
                keypad.sent = true;
                keypad.has_msg = false;
                keypad.can_type = false;
                return msg;
            }
        }
    }
    assert(msg@ == filler_block());
    msg
}

/// Answers a device-id read by peer `conn`: the device id encrypted with
/// `key` when `conn` holds the slot, sixteen zero bytes otherwise. The slot
/// is released whenever a peer held it, so the id is handed out once.
pub fn get_device_id(connected: &mut PeerLink, conn: &u16, device_id: &[u8; 16], key: &[u8; 16]) -> (r: [u8; 16])
    ensures
        r@ == device_id_reply(*old(connected), *conn, device_id@, key@),
        *final(connected) == link_after_device_id(*old(connected)),
{
    let mut msg: [u8; 16] = [0u8; 16];
    if connected.connected {
        connected.connected = false;
        if connected.conn == *conn {
            msg = aes_cipher(*device_id, key);
        }
        connected.conn = 0;
    }
    assert(!device_id_deliverable(*old(connected), *conn) ==> msg@ == Seq::new(16, |i: int| 0u8));
    msg
}

/// After a device-id read, every further read answers zeros until a peer
/// registers again: the id is handed out at most once.
pub proof fn lemma_device_id_once(link: PeerLink, second: u16, device_id: Seq<u8>, key: Seq<u8>)
    ensures
        device_id_reply(link_after_device_id(link), second, device_id, key) == Seq::new(16, |i: int| 0u8),
{
}

/// After a price was handed out, every further read answers the filler
/// block until a new price is entered: the price is handed out at most once.
pub proof fn lemma_price_once(has_msg: bool, link: PeerLink, conn: u16, next: u16, msg: Seq<char>, key: Seq<u8>)
    requires
        msg_deliverable(has_msg, link, conn),
    ensures
        msg_reply(has_msg_after(has_msg, link, conn), link_after_msg(has_msg, link, conn), next, msg, key) == filler_block(),
{
}

/// The block that carries a price holds every typed character, in order
/// and at its own position, one byte each, and `a` in every byte after
/// them: a price of up to 16 characters is carried whole.
pub proof fn lemma_price_block_carries_price(msg: Seq<char>)
    requires
        msg.len() <= 16,
    ensures
        price_block(msg).len() == 16,
        forall|i: int| 0 <= i < msg.len() ==> #[trigger] price_block(msg)[i] == msg[i] as u8,
        forall|i: int| msg.len() <= i < 16 ==> #[trigger] price_block(msg)[i] == 97u8,
{
}

/// A price the driver writes as bytes reaches the customer as those very
/// bytes, padded with `a` to the block size.
pub proof fn lemma_written_price_block(data: Seq<u8>)
    requires
        data.len() <= 16,
    ensures
        price_block(latin1(data)) == data + Seq::new((16 - data.len()) as nat, |i: int| 97u8),
{
    assert forall|i: int| 0 <= i < data.len() implies #[trigger] ((data[i] as char) as u8) == data[i] by {
        let b = data[i];
        assert(((b as char) as u8) == b);
    }
    assert(price_block(latin1(data)) =~= data + Seq::new((16 - data.len()) as nat, |i: int| 97u8));
}

/// A price handed out is the encryption of the block that carries it.
pub proof fn lemma_price_reply(has_msg: bool, link: PeerLink, conn: u16, msg: Seq<char>, key: Seq<u8>)
    requires
        msg_deliverable(has_msg, link, conn),
    ensures
        msg_reply(has_msg, link, conn, msg, key) == aes128_block(key, price_block(msg)),
{
}

/// Byte-wise equality of two slices.
fn bytes_eq(a: &[u8], b: &[u8]) -> (r: bool)
    ensures
        r == (a@ == b@),
{
    if a.len() != b.len() {
        return false;
    }
    let mut i: usize = 0;
    while i < a.len()
        invariant
            a@.len() == b@.len(),
            i <= a@.len(),
            forall|k: int| 0 <= k < i ==> a@[k] == b@[k],
        decreases a@.len() - i,
    {
        if a[i] != b[i] {
            return false;
        }
        i = i + 1;
    }
    assert(a@ == b@);
    true
}

/// What a write from the driver does: `true` when the keypad task has to be
/// woken.
///
/// Only the peer holding the driver slot is heard. The cancel code cancels
/// the entry and locks the keypad; any other value is taken as the price
/// when the keypad accepts input and no price is waiting, and then locks the
/// keypad.
pub fn driver_write(keypad: &mut KeypadState, driver: &PeerLink, handle: u16, data: &[u8], cancel_code: &[u8]) -> (notify: bool)
    requires
        driver.connected && driver.conn == handle && data@ != cancel_code@ ==> data@.len() <= 11,
    ensures
        !(driver.connected && driver.conn == handle) ==> !notify && *final(keypad) == *old(keypad),
        driver.connected && driver.conn == handle && data@ == cancel_code@ ==> {
            &&& notify
            &&& final(keypad).cancel
            &&& !final(keypad).can_type
            &&& final(keypad).has_msg == old(keypad).has_msg
            &&& final(keypad).sent == old(keypad).sent
            &&& final(keypad).msg == old(keypad).msg
        },
        driver.connected && driver.conn == handle && data@ != cancel_code@ ==> {
            &&& notify == (old(keypad).can_type && !old(keypad).has_msg)
            &&& notify ==> chars11(final(keypad).msg) == latin1(data@) && !final(keypad).can_type
            &&& !notify ==> final(keypad).msg == old(keypad).msg && final(keypad).can_type == old(keypad).can_type
            &&& final(keypad).cancel == old(keypad).cancel
            &&& final(keypad).has_msg == old(keypad).has_msg
            &&& final(keypad).sent == old(keypad).sent
        },
{
    if !(driver.connected && driver.conn == handle) {
        return false;
    }
    if bytes_eq(data, cancel_code) {
        keypad.cancel = true;
        keypad.can_type = false;
        return true;
    }
    let mut msg = chars11_new();
    for i in 0..data.len()
        invariant
            data@.len() <= 11,
            chars11(msg) == latin1(data@.take(i as int)),
    {
        chars11_push(&mut msg, data[i] as char);
        assert(latin1(data@.take(i + 1)) == latin1(data@.take(i as int)).push(data@[i as int] as char));
    }
    assert(data@.take(data@.len() as int) == data@);
    if keypad.can_type && !keypad.has_msg {
        keypad.msg = msg;
        keypad.can_type = false;
        return true;
    }
    false
}

/// Records who registered on connection `handle`: a driver takes the driver
/// slot, a customer takes both the price and the device-id slots, anyone
/// else changes nothing.
pub fn register(user: DeviceUser, handle: u16, driver: &mut PeerLink, price: &mut PeerLink, device: &mut PeerLink)
    ensures
        user == DeviceUser::Driver ==> *final(driver) == (PeerLink { connected: true, conn: handle })
            && *final(price) == *old(price) && *final(device) == *old(device),
        user == DeviceUser::User ==> *final(price) == (PeerLink { connected: true, conn: handle })
            && *final(device) == (PeerLink { connected: true, conn: handle })
            && *final(driver) == *old(driver),
        user == DeviceUser::Unrecognised ==> *final(driver) == *old(driver)
            && *final(price) == *old(price) && *final(device) == *old(device),
{
    match user {
        DeviceUser::Driver => {
            driver.conn = handle;
            driver.connected = true;
        },
        DeviceUser::User => {
            price.conn = handle;
            device.conn = handle;
            price.connected = true;
            device.connected = true;
        },
        DeviceUser::Unrecognised => {},
    }
}

/// Frees the driver slot when its peer `handle` disconnects.
pub fn release_driver(driver: &mut PeerLink, handle: u16)
    ensures
        old(driver).connected && old(driver).conn == handle ==> *final(driver) == (PeerLink { connected: false, conn: 0 }),
        !(old(driver).connected && old(driver).conn == handle) ==> *final(driver) == *old(driver),
{
    if driver.connected && driver.conn == handle {
        driver.conn = 0;
        driver.connected = false;
    }
}

/// How long, in nanoseconds, a connection may stay before it is dropped.
pub const IDLE_LIMIT_NANOS: u128 = 10_000_000_000;

/// A connection is due to be dropped when it has been open longer than ten
/// seconds and is not the driver's (it is then disconnected if it is still
/// connected).
pub fn should_disconnect(elapsed_nanos: u128, conn_id: u16, driver_conn: u16) -> (r: bool)
    ensures
        r == (elapsed_nanos > IDLE_LIMIT_NANOS && conn_id != driver_conn),
{
    elapsed_nanos > IDLE_LIMIT_NANOS && conn_id != driver_conn
}

/// How long, in milliseconds, the connection check pauses before its next
/// pass: longer after a pass that found a connection to drop.
pub fn pause_after_check(found_disconnect: bool) -> (r: u32)
    ensures
        r == (if found_disconnect { 1000u32 } else { 500u32 }),
{
    if found_disconnect { 1000 } else { 500 }
}

} // verus!
