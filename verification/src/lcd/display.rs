//! The screens of the LCD, as sequences of display operations.
use vstd::prelude::*;
use crate::buffers::{Chars11, chars11, chars11_get, chars11_len};

verus! {

/// One operation on the 16x2 character display.
pub enum LcdOp {
    /// Clear the screen and put the cursor home.
    Clear,
    /// Write a character at the cursor and advance it.
    WriteChar(char),
    /// Move the cursor to a display (DDRAM) position.
    SetCursor(u8),
    /// Move the cursor one position to the left.
    ShiftLeft,
    /// Show whether the payment service is reachable.
    ShowNetwork(bool),
    /// Show that the payment of the named customer is done.
    ShowPaymentDone(String),
}

/// `ops` writes the characters of `text`, one operation per character.
pub open spec fn writes(ops: Seq<LcdOp>, text: Seq<char>) -> bool {
    &&& ops.len() == text.len()
    &&& forall|i: int| 0 <= i < ops.len() ==>
            (#[trigger] ops[i] matches LcdOp::WriteChar(c) && c == text[i])
}

/// The price-entry screen: a cleared screen, `ENTER PRICE:`, the cursor set
/// to display position 40, and `N`.
pub open spec fn enter_price_screen() -> Seq<LcdOp> {
    seq![
        LcdOp::Clear,
        LcdOp::WriteChar('E'),
        LcdOp::WriteChar('N'),
        LcdOp::WriteChar('T'),
        LcdOp::WriteChar('E'),
        LcdOp::WriteChar('R'),
        LcdOp::WriteChar(' '),
        LcdOp::WriteChar('P'),
        LcdOp::WriteChar('R'),
        LcdOp::WriteChar('I'),
        LcdOp::WriteChar('C'),
        LcdOp::WriteChar('E'),
        LcdOp::WriteChar(':'),
        LcdOp::SetCursor(40),
        LcdOp::WriteChar('N'),
    ]
}

/// The customer screen: a cleared screen, `Total Price:`, the cursor set to
/// display position 40, and `N`.
pub open spec fn total_price_screen() -> Seq<LcdOp> {
    seq![
        LcdOp::Clear,
        LcdOp::WriteChar('T'),
        LcdOp::WriteChar('o'),
        LcdOp::WriteChar('t'),
        LcdOp::WriteChar('a'),
        LcdOp::WriteChar('l'),
        LcdOp::WriteChar(' '),
        LcdOp::WriteChar('P'),
        LcdOp::WriteChar('r'),
        LcdOp::WriteChar('i'),
        LcdOp::WriteChar('c'),
        LcdOp::WriteChar('e'),
        LcdOp::WriteChar(':'),
        LcdOp::SetCursor(40),
        LcdOp::WriteChar('N'),
    ]
}

/// The transmission screen: a cleared screen, `Payment in,`, the cursor set
/// to display position 40, and `progress`.
pub open spec fn transmission_screen() -> Seq<LcdOp> {
    seq![
        LcdOp::Clear,
        LcdOp::WriteChar('P'),
        LcdOp::WriteChar('a'),
        LcdOp::WriteChar('y'),
        LcdOp::WriteChar('m'),
        LcdOp::WriteChar('e'),
        LcdOp::WriteChar('n'),
        LcdOp::WriteChar('t'),
        LcdOp::WriteChar(' '),
        LcdOp::WriteChar('i'),
        LcdOp::WriteChar('n'),
        LcdOp::WriteChar(','),
        LcdOp::SetCursor(40),
        LcdOp::WriteChar('p'),
        LcdOp::WriteChar('r'),
        LcdOp::WriteChar('o'),
        LcdOp::WriteChar('g'),
        LcdOp::WriteChar('r'),
        LcdOp::WriteChar('e'),
        LcdOp::WriteChar('s'),
        LcdOp::WriteChar('s'),
    ]
}

/// An amount with a comma between each group of three characters, counted
/// from the right.
pub open spec fn group_thousands(s: Seq<char>) -> Seq<char>
    decreases s.len(),
{
    if s.len() <= 3 {
        s
    } else {
        group_thousands(s.subrange(0, s.len() - 3)) + seq![','] + s.subrange(s.len() - 3, s.len() as int)
    }
}

/// The price-entry screen: `ENTER PRICE:` and `N` after position 40.
pub fn setup_lcd() -> (r: Vec<LcdOp>)
    ensures
        r@ == enter_price_screen(),
{
    let mut ops: Vec<LcdOp> = Vec::new();
    ops.push(LcdOp::Clear);
    ops.push(LcdOp::WriteChar('E'));
    ops.push(LcdOp::WriteChar('N'));
    ops.push(LcdOp::WriteChar('T'));
    ops.push(LcdOp::WriteChar('E'));
    ops.push(LcdOp::WriteChar('R'));
    ops.push(LcdOp::WriteChar(' '));
    ops.push(LcdOp::WriteChar('P'));
    ops.push(LcdOp::WriteChar('R'));
    ops.push(LcdOp::WriteChar('I'));
    ops.push(LcdOp::WriteChar('C'));
    ops.push(LcdOp::WriteChar('E'));
    ops.push(LcdOp::WriteChar(':'));
    ops.push(LcdOp::SetCursor(40));
    ops.push(LcdOp::WriteChar('N'));
    ops
}

/// The customer screen: `Total Price:` and `N` after position 40.
pub fn setup_customer_msg() -> (r: Vec<LcdOp>)
    ensures
        r@ == total_price_screen(),
{
    let mut ops: Vec<LcdOp> = Vec::new();
    ops.push(LcdOp::Clear);
    ops.push(LcdOp::WriteChar('T'));
    ops.push(LcdOp::WriteChar('o'));
    ops.push(LcdOp::WriteChar('t'));
    ops.push(LcdOp::WriteChar('a'));
    ops.push(LcdOp::WriteChar('l'));
    ops.push(LcdOp::WriteChar(' '));
    ops.push(LcdOp::WriteChar('P'));
    ops.push(LcdOp::WriteChar('r'));
    ops.push(LcdOp::WriteChar('i'));
    ops.push(LcdOp::WriteChar('c'));
    ops.push(LcdOp::WriteChar('e'));
    ops.push(LcdOp::WriteChar(':'));
    ops.push(LcdOp::SetCursor(40));
    ops.push(LcdOp::WriteChar('N'));
    ops
}

/// The transmission screen: `Payment in,` and `progress` after position 40.
pub fn setup_transmisson_msg() -> (r: Vec<LcdOp>)
    ensures
        r@ == transmission_screen(),
{
    let mut ops: Vec<LcdOp> = Vec::new();
    ops.push(LcdOp::Clear);
    ops.push(LcdOp::WriteChar('P'));
    ops.push(LcdOp::WriteChar('a'));
    ops.push(LcdOp::WriteChar('y'));
    ops.push(LcdOp::WriteChar('m'));
    ops.push(LcdOp::WriteChar('e'));
    ops.push(LcdOp::WriteChar('n'));
    ops.push(LcdOp::WriteChar('t'));
    ops.push(LcdOp::WriteChar(' '));
    ops.push(LcdOp::WriteChar('i'));
    ops.push(LcdOp::WriteChar('n'));
    ops.push(LcdOp::WriteChar(','));
    ops.push(LcdOp::SetCursor(40));
    ops.push(LcdOp::WriteChar('p'));
    ops.push(LcdOp::WriteChar('r'));
    ops.push(LcdOp::WriteChar('o'));
    ops.push(LcdOp::WriteChar('g'));
    ops.push(LcdOp::WriteChar('r'));
    ops.push(LcdOp::WriteChar('e'));
    ops.push(LcdOp::WriteChar('s'));
    ops.push(LcdOp::WriteChar('s'));
    ops
}

/// The text the grouping loop has produced after the first `i` characters of
/// `s`: a comma goes before each character that starts a group of three
/// counted from the right.
spec fn grouped_prefix(s: Seq<char>, i: int) -> Seq<char>
    decreases i,
{
    if i <= 0 {
        Seq::<char>::empty()
    } else {
        grouped_prefix(s, i - 1) + (if i - 1 > 0 && (s.len() - (i - 1)) % 3 == 0 {
            seq![',']
        } else {
            Seq::<char>::empty()
        }) + seq![s[i - 1]]
    }
}

/// The grouping loop only looks at the characters it has passed and at the
/// distance to the end modulo three.
proof fn lemma_grouped_prefix_shift(s: Seq<char>, t: Seq<char>, i: int)
    requires
        0 <= i <= t.len(),
        t.len() <= s.len(),
        (s.len() - t.len()) % 3 == 0,
        forall|k: int| 0 <= k < t.len() ==> t[k] == s[k],
    ensures
        grouped_prefix(s, i) == grouped_prefix(t, i),
    decreases i,
{
    if i > 0 {
        lemma_grouped_prefix_shift(s, t, i - 1);
        assert((s.len() - (i - 1)) % 3 == (t.len() - (i - 1)) % 3);
    }
}

/// The grouping loop computes `group_thousands`.
proof fn lemma_grouped_prefix_full(s: Seq<char>)
    ensures
        grouped_prefix(s, s.len() as int) == group_thousands(s),
    decreases s.len(),
{
    let n = s.len() as int;
    if n <= 3 {
        assert(grouped_prefix(s, 0) == Seq::<char>::empty());
        if n >= 1 {
            assert(grouped_prefix(s, 1) == seq![s[0]]);
        }
        if n >= 2 {
            assert(grouped_prefix(s, 2) == seq![s[0], s[1]]);
        }
        if n >= 3 {
            assert(grouped_prefix(s, 3) == seq![s[0], s[1], s[2]]);
        }
        assert(grouped_prefix(s, n) == s);
    } else {
        let t = s.subrange(0, n - 3);
        lemma_grouped_prefix_full(t);
        lemma_grouped_prefix_shift(s, t, n - 3);
        assert(grouped_prefix(s, n - 2) == group_thousands(t) + seq![','] + seq![s[n - 3]]);
        assert(grouped_prefix(s, n - 1) == group_thousands(t) + seq![','] + seq![s[n - 3], s[n - 2]]);
        assert(grouped_prefix(s, n) == group_thousands(t) + seq![','] + seq![s[n - 3], s[n - 2], s[n - 1]]);
        assert(s.subrange(n - 3, n) == seq![s[n - 3], s[n - 2], s[n - 1]]);
    }
}

/// The typed amount with its digits grouped by three with commas.
pub fn show_message(msg: &Chars11) -> (r: Vec<LcdOp>)
    ensures
        writes(r@, group_thousands(chars11(*msg))),
{
    let ghost s = chars11(*msg);
    let n = chars11_len(msg);
    let mut ops: Vec<LcdOp> = Vec::new();
    for i in 0..n
        invariant
            n == s.len(),
            n <= 11,
            s == chars11(*msg),
            writes(ops@, grouped_prefix(s, i as int)),
    {
        let c = chars11_get(msg, i);
        let ghost before = grouped_prefix(s, i as int);
        if i != 0 && (n - i) % 3 == 0 {
            ops.push(LcdOp::WriteChar(','));
            assert(grouped_prefix(s, i + 1) == before + seq![','] + seq![c]);
        } else {
            assert(grouped_prefix(s, i + 1) == before + Seq::<char>::empty() + seq![c]);
        }
        ops.push(LcdOp::WriteChar(c));
    }
    proof {
        lemma_grouped_prefix_full(s);
    }
    ops
}

/// The characters of `s` other than commas.
pub open spec fn without_commas(s: Seq<char>) -> Seq<char>
    decreases s.len(),
{
    if s.len() == 0 {
        s
    } else {
        without_commas(s.drop_last()) + (if s.last() == ',' { Seq::<char>::empty() } else { seq![s.last()] })
    }
}

/// Removing commas distributes over concatenation.
pub proof fn lemma_without_commas_concat(a: Seq<char>, b: Seq<char>)
    ensures
        without_commas(a + b) == without_commas(a) + without_commas(b),
    decreases b.len(),
{
    if b.len() == 0 {
        assert(a + b == a);
    } else {
        lemma_without_commas_concat(a, b.drop_last());
        assert((a + b).drop_last() == a + b.drop_last());
    }
}

/// Grouping inserts one comma for each full group of three characters
/// beyond the first, whatever the amount holds.
pub proof fn lemma_grouping_length(s: Seq<char>)
    requires
        s.len() > 0,
    ensures
        group_thousands(s).len() == s.len() + (s.len() - 1) / 3,
    decreases s.len(),
{
    if s.len() > 3 {
        lemma_grouping_length(s.subrange(0, s.len() - 3));
    }
}

/// Grouping only inserts commas: taking them out again gives back an amount
/// that holds none.
pub proof fn lemma_grouping_reversible(s: Seq<char>)
    requires
        forall|k: int| 0 <= k < s.len() ==> s[k] != ',',
    ensures
        without_commas(group_thousands(s)) == s,
    decreases s.len(),
{
    lemma_no_commas_identity(s);
    if s.len() > 3 {
        let t = s.subrange(0, s.len() - 3);
        let u = s.subrange(s.len() - 3, s.len() as int);
        lemma_grouping_reversible(t);
        lemma_without_commas_concat(group_thousands(t) + seq![','], u);
        lemma_without_commas_concat(group_thousands(t), seq![',']);
        lemma_no_commas_identity(u);
        assert(without_commas(seq![',']) == Seq::<char>::empty()) by {
            assert(seq![','].drop_last() =~= Seq::<char>::empty());
            assert(seq![','].last() == ',');
            reveal_with_fuel(without_commas, 2);
        }
    }
}

/// In a grouped amount a comma stands exactly where a multiple of four
/// characters remains to the end: the groups are counted from the right, so
/// every group but the first holds three characters.
pub proof fn lemma_comma_positions(s: Seq<char>)
    requires
        forall|k: int| 0 <= k < s.len() ==> s[k] != ',',
    ensures
        forall|k: int| 0 <= k < group_thousands(s).len() ==>
            (#[trigger] group_thousands(s)[k] == ',' <==> (group_thousands(s).len() - k) % 4 == 0),
    decreases s.len(),
{
    let g = group_thousands(s);
    if s.len() > 3 {
        let t = s.subrange(0, s.len() - 3);
        let u = s.subrange(s.len() - 3, s.len() as int);
        let gt = group_thousands(t);
        lemma_comma_positions(t);
        assert(g == gt + seq![','] + u);
        assert forall|k: int| 0 <= k < g.len() implies
            (#[trigger] g[k] == ',' <==> (g.len() - k) % 4 == 0) by {
            if k < gt.len() {
                assert(g[k] == gt[k]);
                assert((g.len() - k) % 4 == (gt.len() - k) % 4);
            } else if k == gt.len() {
                assert(g[k] == ',');
            } else {
                assert(g[k] == u[k - gt.len() - 1]);
                assert(u[k - gt.len() - 1] == s[s.len() - 3 + k - gt.len() - 1]);
            }
        }
    }
}

/// A text without commas is left as it is.
proof fn lemma_no_commas_identity(s: Seq<char>)
    requires
        forall|k: int| 0 <= k < s.len() ==> s[k] != ',',
    ensures
        without_commas(s) == s,
    decreases s.len(),
{
    if s.len() > 0 {
        lemma_no_commas_identity(s.drop_last());
    }
}

} // verus!
