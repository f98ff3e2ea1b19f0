//! Decoding of the 4x4 matrix keypad.
//!
//! A scan drives each of the four columns low in turn and samples the four
//! row inputs; a row that reads low has its key pressed. The scan packs the
//! samples into a 16-bit value, four bits per column, which `convert` and
//! `Keypad4x4::get_char` turn into the label printed on the key.
use vstd::prelude::*;

verus! {

pub const KEY_1: u16 = 1;
pub const KEY_4: u16 = 2;
pub const KEY_7: u16 = 4;
pub const KEY_STAR: u16 = 8;
pub const KEY_2: u16 = 16;
pub const KEY_5: u16 = 32;
pub const KEY_8: u16 = 64;
pub const KEY_0: u16 = 128;
pub const KEY_3: u16 = 256;
pub const KEY_6: u16 = 512;
pub const KEY_9: u16 = 1024;
pub const KEY_HASH: u16 = 2048;
pub const KEY_A: u16 = 4096;
pub const KEY_B: u16 = 8192;
pub const KEY_C: u16 = 16384;
pub const KEY_D: u16 = 32768;

/// The keypad digit of a raw scan value: 0..9 for the digit keys, -1 for `*`,
/// -2 for `#`, -3..-6 for `A`..`D`, and -10 for any value that is not exactly
/// one key (no key, or several keys at once).
pub open spec fn key_code(value: u16) -> i16 {
    if value == 1 { 1i16 }
    else if value == 2 { 4i16 }
    else if value == 4 { 7i16 }
    else if value == 8 { -1i16 }
    else if value == 16 { 2i16 }
    else if value == 32 { 5i16 }
    else if value == 64 { 8i16 }
    else if value == 128 { 0i16 }
    else if value == 256 { 3i16 }
    else if value == 512 { 6i16 }
    else if value == 1024 { 9i16 }
    else if value == 2048 { -2i16 }
    else if value == 4096 { -3i16 }
    else if value == 8192 { -4i16 }
    else if value == 16384 { -5i16 }
    else if value == 32768 { -6i16 }
    else { -10i16 }
}

/// The label of a keypad digit: `*`, `#`, `A`..`D` for the negative codes
/// -1..-6, the decimal digit for 0..9, and a blank for anything else.
pub open spec fn key_label(code: i16) -> char {
    if code == -1 { '*' }
    else if code == -2 { '#' }
    else if code == -3 { 'A' }
    else if code == -4 { 'B' }
    else if code == -5 { 'C' }
    else if code == -6 { 'D' }
    else if 0 <= code <= 9 { ((code + 48) as u8) as char }
    else { ' ' }
}

/// The label printed on the key at `column` (0..4, the order in which a scan
/// drives them) and `row` (0..4, the order of the row inputs).
pub open spec fn key_at(column: int, row: int) -> char {
    seq![
        seq!['1', '4', '7', '*'],
        seq!['2', '5', '8', '0'],
        seq!['3', '6', '9', '#'],
        seq!['A', 'B', 'C', 'D'],
    ][column][row]
}

/// The four bits that one column contributes: bit `i` set when row `i` reads low.
pub open spec fn column_value(rows_low: Seq<bool>) -> int {
    (if rows_low[0] { 1int } else { 0 }) + (if rows_low[1] { 2int } else { 0 })
        + (if rows_low[2] { 4int } else { 0 }) + (if rows_low[3] { 8int } else { 0 })
}

/// The raw value of a scan: column `c` contributes its bits at position `4 * c`.
pub open spec fn scan_value(columns: Seq<int>) -> int {
    columns[0] + 16 * columns[1] + 256 * columns[2] + 4096 * columns[3]
}

/// `levels` holds the row samples of all four columns and only the key at
/// (`column`, `row`) reads low.
pub open spec fn only_pressed(levels: Seq<Seq<bool>>, column: int, row: int) -> bool {
    &&& levels.len() == 4
    &&& forall|c: int| 0 <= c < 4 ==> #[trigger] levels[c].len() == 4
    &&& forall|c: int, r: int| 0 <= c < 4 && 0 <= r < 4 ==>
            (#[trigger] levels[c][r] <==> (c == column && r == row))
}

/// The raw value exactly one key produces.
pub open spec fn is_single_key(raw: u16) -> bool {
    ||| raw == 1 || raw == 2 || raw == 4 || raw == 8
    ||| raw == 16 || raw == 32 || raw == 64 || raw == 128
    ||| raw == 256 || raw == 512 || raw == 1024 || raw == 2048
    ||| raw == 4096 || raw == 8192 || raw == 16384 || raw == 32768
}

/// Converts the raw value (2^N) of a scan into a keypad digit: 0..9 for the
/// digits, -1 for `*`, -2 for `#`, -3..-6 for `A`..`D`, -10 otherwise.
pub fn convert(value: u16) -> (r: i16)
    ensures
        r == key_code(value),
{
    if value == KEY_1 { 1 }
    else if value == KEY_4 { 4 }
    else if value == KEY_7 { 7 }
    else if value == KEY_STAR { -1 }
    else if value == KEY_2 { 2 }
    else if value == KEY_5 { 5 }
    else if value == KEY_8 { 8 }
    else if value == KEY_0 { 0 }
    else if value == KEY_3 { 3 }
    else if value == KEY_6 { 6 }
    else if value == KEY_9 { 9 }
    else if value == KEY_HASH { -2 }
    else if value == KEY_A { -3 }
    else if value == KEY_B { -4 }
    else if value == KEY_C { -5 }
    else if value == KEY_D { -6 }
    else { -10 }
}

/// The row samples of the last scan of the keypad, four bits per column.
pub struct Keypad4x4 {
    col0: u16,
    col1: u16,
    col2: u16,
    col3: u16,
}

impl Keypad4x4 {
    #[verifier::type_invariant]
    spec fn inv(self) -> bool {
        self.col0 < 16 && self.col1 < 16 && self.col2 < 16 && self.col3 < 16
    }

    /// The bits recorded for each column, in scan order.
    pub closed spec fn columns(self) -> Seq<int> {
        seq![self.col0 as int, self.col1 as int, self.col2 as int, self.col3 as int]
    }

    /// A keypad on which no key has been seen yet.
    pub fn new() -> (r: Self)
        ensures
            r.columns() == seq![0int, 0, 0, 0],
    {
        Keypad4x4 { col0: 0, col1: 0, col2: 0, col3: 0 }
    }

    /// Records the row samples taken while `column` was driven low: row `i`
    /// reading low sets bit `i` of that column.
    pub fn read_column(&mut self, column: usize, rows_low: [bool; 4])
        requires
            column < 4,
        ensures
            final(self).columns() == old(self).columns().update(column as int, column_value(rows_low@)),
    {
        proof { use_type_invariant(&*self); }
        let b0: u16 = if rows_low[0] { 1 } else { 0 };
        let b1: u16 = if rows_low[1] { 2 } else { 0 };
        let b2: u16 = if rows_low[2] { 4 } else { 0 };
        let b3: u16 = if rows_low[3] { 8 } else { 0 };
        assert((b0 | b1 | b2 | b3) == b0 + b1 + b2 + b3 && b0 + b1 + b2 + b3 < 16) by (bit_vector)
            requires
                b0 == 0 || b0 == 1,
                b1 == 0 || b1 == 2,
                b2 == 0 || b2 == 4,
                b3 == 0 || b3 == 8,
        ;
        let res: u16 = b0 | b1 | b2 | b3;
        if column == 0 {
            self.col0 = res;
        } else if column == 1 {
            self.col1 = res;
        } else if column == 2 {
            self.col2 = res;
        } else {
            self.col3 = res;
        }
    }

    /// The raw value of the scan: bit `4 * c + i` set when row `i` read low
    /// while column `c` was driven low.
    pub fn read(&self) -> (r: u16)
        ensures
            r as int == scan_value(self.columns()),
    {
        proof { use_type_invariant(self); }
        let c0 = self.col0;
        let c1 = self.col1;
        let c2 = self.col2;
        let c3 = self.col3;
        assert((c0 | (c1 << 4u16) | (c2 << 8u16) | (c3 << 12u16)) as int
            == c0 + 16 * c1 + 256 * c2 + 4096 * c3) by (bit_vector)
            requires
                c0 < 16, c1 < 16, c2 < 16, c3 < 16,
        ;
        c0 | (c1 << 4) | (c2 << 8) | (c3 << 12)
    }

    /// The character of the key the last scan saw: `'0'`..`'9'`, `'*'`, `'#'`,
    /// `'A'`..`'D'`, or `' '` when no key (or more than one key) was pressed.
    pub fn read_char(&self) -> (r: char)
        ensures
            0 <= scan_value(self.columns()) < 65536,
            r == key_label(key_code(scan_value(self.columns()) as u16)),
    {
        let raw = self.read();
        self.get_char(raw)
    }

    /// The label of the key that a raw scan value stands for: `0`..`9`, `*`,
    /// `#`, `A`..`D`, or `' '` when the value is not exactly one key.
    pub fn get_char(&self, raw_value: u16) -> (r: char)
        ensures
            r == key_label(key_code(raw_value)),
    {
        let value = convert(raw_value);
        if value == -1 { '*' }
        else if value == -2 { '#' }
        else if value == -3 { 'A' }
        else if value == -4 { 'B' }
        else if value == -5 { 'C' }
        else if value == -6 { 'D' }
        else if 0 <= value && value <= 9 { ((value as u8) + 48) as char }
        else { ' ' }
    }
}

/// The raw value of a scan in which only the key at (`column`, `row`) reads
/// low: the single bit `4 * column + row`.
proof fn lemma_single_press_raw(levels: Seq<Seq<bool>>, column: int, row: int)
    requires
        0 <= column < 4,
        0 <= row < 4,
        only_pressed(levels, column, row),
    ensures
        scan_value(seq![
            column_value(levels[0]), column_value(levels[1]),
            column_value(levels[2]), column_value(levels[3]),
        ]) == seq![
            seq![1int, 2, 4, 8],
            seq![16int, 32, 64, 128],
            seq![256int, 512, 1024, 2048],
            seq![4096int, 8192, 16384, 32768],
        ][column][row],
{
    assert(levels[0][0] == (column == 0 && row == 0));
    assert(levels[0][1] == (column == 0 && row == 1));
    assert(levels[0][2] == (column == 0 && row == 2));
    assert(levels[0][3] == (column == 0 && row == 3));
    assert(levels[1][0] == (column == 1 && row == 0));
    assert(levels[1][1] == (column == 1 && row == 1));
    assert(levels[1][2] == (column == 1 && row == 2));
    assert(levels[1][3] == (column == 1 && row == 3));
    assert(levels[2][0] == (column == 2 && row == 0));
    assert(levels[2][1] == (column == 2 && row == 1));
    assert(levels[2][2] == (column == 2 && row == 2));
    assert(levels[2][3] == (column == 2 && row == 3));
    assert(levels[3][0] == (column == 3 && row == 0));
    assert(levels[3][1] == (column == 3 && row == 1));
    assert(levels[3][2] == (column == 3 && row == 2));
    assert(levels[3][3] == (column == 3 && row == 3));
}

/// A scan in which only the key at (`column`, `row`) reads low decodes to the
/// label printed on that key.
pub proof fn lemma_single_press_label(levels: Seq<Seq<bool>>, column: int, row: int)
    requires
        0 <= column < 4,
        0 <= row < 4,
        only_pressed(levels, column, row),
    ensures
        ({
            let raw = scan_value(seq![
                column_value(levels[0]), column_value(levels[1]),
                column_value(levels[2]), column_value(levels[3]),
            ]);
            &&& 0 <= raw < 65536
            &&& is_single_key(raw as u16)
            &&& key_label(key_code(raw as u16)) == key_at(column, row)
        }),
{
    lemma_single_press_raw(levels, column, row);
    reveal_with_fuel(key_label, 1);
}

/// A scan in which only the key at (`column`, `row`) reads low converts to
/// the value printed on that key: the digit itself for `0`..`9`, -1 for `*`,
/// -2 for `#`, and -3, -4, -5, -6 for `A`, `B`, `C`, `D`.
pub proof fn lemma_single_press_code(levels: Seq<Seq<bool>>, column: int, row: int)
    requires
        0 <= column < 4,
        0 <= row < 4,
        only_pressed(levels, column, row),
    ensures
        ({
            let raw = scan_value(seq![
                column_value(levels[0]), column_value(levels[1]),
                column_value(levels[2]), column_value(levels[3]),
            ]);
            let label = key_at(column, row);
            &&& ('0' <= label && label <= '9') ==> key_code(raw as u16) == (label as int) - ('0' as int)
            &&& label == '*' ==> key_code(raw as u16) == -1
            &&& label == '#' ==> key_code(raw as u16) == -2
            &&& label == 'A' ==> key_code(raw as u16) == -3
            &&& label == 'B' ==> key_code(raw as u16) == -4
            &&& label == 'C' ==> key_code(raw as u16) == -5
            &&& label == 'D' ==> key_code(raw as u16) == -6
        }),
{
    lemma_single_press_raw(levels, column, row);
}

/// A raw scan value decodes to a key label exactly when one key produced it;
/// every other value (no key, several keys) decodes to a blank.
pub proof fn lemma_label_iff_single_key(raw: u16)
    ensures
        (key_label(key_code(raw)) != ' ') <==> is_single_key(raw),
{
}

/// A read decodes to a digit `0`..`9`, `*`, `#`, `A`..`D`, or `' '` when no
/// single key is pressed; never to anything else.
pub proof fn lemma_read_labels(raw: u16)
    ensures
        ({
            let c = key_label(key_code(raw));
            ||| ('0' <= c && c <= '9')
            ||| c == '*' || c == '#'
            ||| c == 'A' || c == 'B' || c == 'C' || c == 'D'
            ||| c == ' '
        }),
{
}

/// Distinct keys carry distinct labels.
pub proof fn lemma_labels_distinct(a: u16, b: u16)
    requires
        is_single_key(a),
        is_single_key(b),
        a != b,
    ensures
        key_label(key_code(a)) != key_label(key_code(b)),
{
}

} // verus!
