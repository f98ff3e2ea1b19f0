use metal_terminal::keypad::{convert, Keypad4x4, KEY_0, KEY_1, KEY_5, KEY_9, KEY_A, KEY_D, KEY_HASH, KEY_STAR};

#[test]
fn convert_maps_each_key() {
    assert_eq!(convert(KEY_1), 1);
    assert_eq!(convert(KEY_0), 0);
    assert_eq!(convert(KEY_9), 9);
    assert_eq!(convert(KEY_STAR), -1);
    assert_eq!(convert(KEY_HASH), -2);
    assert_eq!(convert(KEY_A), -3);
    assert_eq!(convert(KEY_D), -6);
}

#[test]
fn convert_rejects_no_key_and_several_keys() {
    assert_eq!(convert(0), -10);
    assert_eq!(convert(KEY_1 | KEY_5), -10);
    assert_eq!(convert(u16::MAX), -10);
}

#[test]
fn get_char_labels() {
    let k = Keypad4x4::new();
    assert_eq!(k.get_char(KEY_0), '0');
    assert_eq!(k.get_char(KEY_5), '5');
    assert_eq!(k.get_char(KEY_STAR), '*');
    assert_eq!(k.get_char(KEY_HASH), '#');
    assert_eq!(k.get_char(KEY_D), 'D');
    assert_eq!(k.get_char(0), ' ');
    assert_eq!(k.get_char(3), ' ');
}

fn scan(pressed: Option<(usize, usize)>) -> u16 {
    let mut k = Keypad4x4::new();
    for column in 0..4 {
        let mut rows = [false; 4];
        if let Some((c, r)) = pressed {
            if c == column {
                rows[r] = true;
            }
        }
        k.read_column(column, rows);
    }
    k.read()
}

#[test]
fn single_press_reads_its_label() {
    let layout = [['1', '4', '7', '*'], ['2', '5', '8', '0'], ['3', '6', '9', '#'], ['A', 'B', 'C', 'D']];
    let k = Keypad4x4::new();
    for c in 0..4 {
        for r in 0..4 {
            let raw = scan(Some((c, r)));
            assert_eq!(raw, 1u16 << (4 * c + r));
            assert_eq!(k.get_char(raw), layout[c][r]);
        }
    }
}

#[test]
fn no_press_reads_blank() {
    let raw = scan(None);
    assert_eq!(raw, 0);
    assert_eq!(Keypad4x4::new().get_char(raw), ' ');
}

#[test]
fn two_presses_read_blank() {
    let mut k = Keypad4x4::new();
    k.read_column(0, [true, false, false, false]);
    k.read_column(1, [false, true, false, false]);
    k.read_column(2, [false; 4]);
    k.read_column(3, [false; 4]);
    let raw = k.read();
    assert_eq!(raw, KEY_1 | KEY_5);
    assert_eq!(k.get_char(raw), ' ');
    assert_eq!(k.read_char(), ' ');
}

#[test]
fn column_bits_compose() {
    let mut k = Keypad4x4::new();
    k.read_column(0, [true, true, true, true]);
    k.read_column(3, [false, false, false, true]);
    assert_eq!(k.read(), 0x800f);
    k.read_column(0, [false; 4]);
    assert_eq!(k.read(), 0x8000);
    assert_eq!(k.read_char(), 'D');
}

#[test]
fn read_char_gives_the_key() {
    let mut k = Keypad4x4::new();
    assert_eq!(k.read_char(), ' ');
    k.read_column(1, [false, false, false, true]);
    assert_eq!(k.read_char(), '0');
    k.read_column(1, [false; 4]);
    k.read_column(2, [false, false, false, true]);
    assert_eq!(k.read_char(), '#');
}
