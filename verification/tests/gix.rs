use metal_terminal::encrypt::aes_cipher;
use metal_terminal::gix::{
    driver_write, get_device_id, get_msg, pause_after_check, register, release_driver, should_disconnect, DeviceUser,
    KeypadState, PeerLink,
};

fn keypad(has_msg: bool, can_type: bool, msg: &str) -> KeypadState {
    let mut m: heapless::Vec<char, 11> = heapless::Vec::new();
    for c in msg.chars() {
        m.push(c).unwrap();
    }
    KeypadState { has_msg, can_type, cancel: false, sent: false, msg: m }
}

const KEY: [u8; 16] = [7u8; 16];

#[test]
fn get_msg_hands_price_out_once() {
    let mut k = keypad(true, true, "1250");
    let mut link = PeerLink { connected: true, conn: 9 };
    let r = get_msg(&mut k, &mut link, &9, &KEY);
    let mut block = [b'a'; 16];
    block[..4].copy_from_slice(b"1250");
    assert_eq!(r, aes_cipher(block, &KEY));
    assert_eq!(link, PeerLink { connected: false, conn: 0 });
    assert!(k.sent);
    assert!(!k.has_msg);
    assert!(!k.can_type);
    let again = get_msg(&mut k, &mut link, &9, &KEY);
    assert_eq!(again, [b'a'; 16]);
}

#[test]
fn get_msg_filler_for_other_peer_or_no_price() {
    let mut k = keypad(true, true, "99");
    let mut link = PeerLink { connected: true, conn: 9 };
    assert_eq!(get_msg(&mut k, &mut link, &8, &KEY), [b'a'; 16]);
    assert_eq!(link, PeerLink { connected: true, conn: 9 });
    assert!(k.has_msg && k.can_type && !k.sent);
    let mut k2 = keypad(false, true, "99");
    assert_eq!(get_msg(&mut k2, &mut link, &9, &KEY), [b'a'; 16]);
    assert_eq!(link, PeerLink { connected: true, conn: 9 });
}

#[test]
fn get_device_id_once() {
    let id = *b"DEVICE-000000001";
    let mut link = PeerLink { connected: true, conn: 4 };
    let r = get_device_id(&mut link, &4, &id, &KEY);
    assert_eq!(r, aes_cipher(id, &KEY));
    assert_eq!(link, PeerLink { connected: false, conn: 0 });
    assert_eq!(get_device_id(&mut link, &4, &id, &KEY), [0u8; 16]);
}

#[test]
fn get_device_id_other_peer_releases_slot() {
    let id = [1u8; 16];
    let mut link = PeerLink { connected: true, conn: 4 };
    assert_eq!(get_device_id(&mut link, &5, &id, &KEY), [0u8; 16]);
    assert_eq!(link, PeerLink { connected: false, conn: 0 });
}

#[test]
fn driver_sets_price_when_keypad_accepts() {
    let mut k = keypad(false, true, "");
    let driver = PeerLink { connected: true, conn: 2 };
    assert!(driver_write(&mut k, &driver, 2, b"4500", b"CANCEL"));
    assert_eq!(k.msg.as_slice(), &['4', '5', '0', '0']);
    assert!(!k.can_type);
    assert!(!driver_write(&mut k, &driver, 2, b"1", b"CANCEL"));
    assert_eq!(k.msg.as_slice(), &['4', '5', '0', '0']);
}

#[test]
fn driver_cancel_and_strangers() {
    let mut k = keypad(true, true, "12");
    let driver = PeerLink { connected: true, conn: 2 };
    assert!(!driver_write(&mut k, &driver, 3, b"CANCEL", b"CANCEL"));
    assert!(!k.cancel);
    assert!(!driver_write(&mut k, &driver, 2, b"77", b"CANCEL"));
    assert_eq!(k.msg.as_slice(), &['1', '2']);
    assert!(driver_write(&mut k, &driver, 2, b"CANCEL", b"CANCEL"));
    assert!(k.cancel);
    assert!(!k.can_type);
}

#[test]
fn register_and_release() {
    let mut driver = PeerLink { connected: false, conn: 0 };
    let mut price = PeerLink { connected: false, conn: 0 };
    let mut device = PeerLink { connected: false, conn: 0 };
    register(DeviceUser::Unrecognised, 1, &mut driver, &mut price, &mut device);
    assert!(!driver.connected && !price.connected && !device.connected);
    register(DeviceUser::User, 5, &mut driver, &mut price, &mut device);
    assert_eq!(price, PeerLink { connected: true, conn: 5 });
    assert_eq!(device, PeerLink { connected: true, conn: 5 });
    register(DeviceUser::Driver, 6, &mut driver, &mut price, &mut device);
    assert_eq!(driver, PeerLink { connected: true, conn: 6 });
    release_driver(&mut driver, 5);
    assert_eq!(driver, PeerLink { connected: true, conn: 6 });
    release_driver(&mut driver, 6);
    assert_eq!(driver, PeerLink { connected: false, conn: 0 });
}

#[test]
fn stale_connections() {
    assert!(!should_disconnect(10_000_000_000, 1, 2));
    assert!(should_disconnect(10_000_000_001, 1, 2));
    assert!(!should_disconnect(20_000_000_000, 2, 2));
}

#[test]
fn check_pause() {
    assert_eq!(pause_after_check(true), 1000);
    assert_eq!(pause_after_check(false), 500);
}
