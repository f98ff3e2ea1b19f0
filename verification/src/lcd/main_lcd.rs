//! What the LCD task shows for each command.
use vstd::prelude::*;
use crate::buffers::{Chars11, chars11, chars11_len, chars11_new, chars11_pop};
use crate::lcd::display::{
    LcdOp, enter_price_screen, group_thousands, setup_customer_msg, setup_lcd,
    setup_transmisson_msg, show_message, total_price_screen, transmission_screen, writes,
};
use crate::lcd::task::LCDCommand;

verus! {

/// The price-entry screen, when the flag asks for it first.
pub open spec fn back_to_entry(on_sent: bool) -> Seq<LcdOp> {
    if on_sent { enter_price_screen() } else { Seq::<LcdOp>::empty() }
}

/// The operations that erase the last character written.
pub open spec fn erase_last() -> Seq<LcdOp> {
    seq![LcdOp::ShiftLeft, LcdOp::WriteChar(' '), LcdOp::ShiftLeft]
}

/// The character it is given, as a value of its own.
fn char_value(c: char) -> (r: char)
    ensures
        r == c,
{
    c
}

/// Appends `ops` to `dst`.
fn push_all(dst: &mut Vec<LcdOp>, ops: Vec<LcdOp>)
    ensures
        final(dst)@ == old(dst)@ + ops@,
{
    let mut ops = ops;
    dst.append(&mut ops);
}

/// The price-entry screen when `on_sent` asks for it, nothing otherwise.
fn entry_if(on_sent: bool) -> (r: Vec<LcdOp>)
    ensures
        r@ == back_to_entry(on_sent),
{
    if on_sent { setup_lcd() } else { Vec::new() }
}

/// What showing `cmd` does: `ops` are the display operations and `after`
/// the typed amount afterwards, `before` being the amount before. Erasing
/// the last character also removes it from the amount; a typed character is
/// shown only while the amount holds fewer than 11 characters.
pub open spec fn displays(cmd: LCDCommand, before: Seq<char>, after: Seq<char>, ops: Seq<LcdOp>) -> bool {
    &&& cmd is ClearLastChar ==> after == before.drop_last()
    &&& !(cmd is ClearLastChar) ==> after == before
    &&& cmd is Message ==> ops == seq![LcdOp::Clear] + enter_price_screen()
    &&& cmd matches LCDCommand::SetupTransmissionMsg(on_sent) ==> ops == back_to_entry(on_sent) + transmission_screen()
    &&& cmd matches LCDCommand::HealthCheck((health, on_sent)) ==>
            ops == back_to_entry(on_sent) + seq![LcdOp::ShowNetwork(health.healthly)]
    &&& cmd matches LCDCommand::PaymentDone((_, data)) ==> ops == seq![LcdOp::ShowPaymentDone(data.first_name)]
    &&& cmd is PreviousMsg ==> ops.len() >= 15 && ops.take(15) == enter_price_screen()
            && writes(ops.skip(15), group_thousands(before))
    &&& cmd matches LCDCommand::PriceEntered(on_sent) ==> ({
            let head = back_to_entry(on_sent) + total_price_screen();
            &&& ops.len() >= head.len()
            &&& ops.take(head.len() as int) == head
            &&& writes(ops.skip(head.len() as int), group_thousands(before))
        })
    &&& cmd matches LCDCommand::ClearLastChar(on_sent) ==> ops == back_to_entry(on_sent) + erase_last()
    &&& cmd matches LCDCommand::Character((c, on_sent)) ==> ops == back_to_entry(on_sent) + (
            if before.len() < 11 { seq![LcdOp::WriteChar(c)] } else { Seq::<LcdOp>::empty() })
}

/// What the LCD shows for `cmd`, given the typed amount `msg` (see `displays`).
pub fn lcd_display(cmd: LCDCommand, msg: &mut Chars11) -> (r: Vec<LcdOp>)
    requires
        cmd is ClearLastChar ==> chars11(*old(msg)).len() > 0,
    ensures
        displays(cmd, chars11(*old(msg)), chars11(*final(msg)), r@),
{
    match cmd {
        LCDCommand::Message(_) => {
            let mut ops: Vec<LcdOp> = Vec::new();
            ops.push(LcdOp::Clear);
            push_all(&mut ops, setup_lcd());
            ops
        },
        LCDCommand::SetupTransmissionMsg(on_sent) => {
            let mut ops = entry_if(on_sent);
            push_all(&mut ops, setup_transmisson_msg());
            ops
        },
        LCDCommand::HealthCheck((health, on_sent)) => {
            let mut ops = entry_if(on_sent);
            ops.push(LcdOp::ShowNetwork(health.healthly));
            assert(ops@ == back_to_entry(on_sent) + seq![LcdOp::ShowNetwork(health.healthly)]);
            ops
        },
        LCDCommand::PaymentDone((_, data)) => {
            let mut ops: Vec<LcdOp> = Vec::new();
            ops.push(LcdOp::ShowPaymentDone(data.first_name));
            ops
        },
        LCDCommand::PreviousMsg(_) => {
            let mut ops = setup_lcd();
            let shown = show_message(msg);
            let ghost head = ops@;
            push_all(&mut ops, shown);
            assert(ops@.take(15) =~= head);
            assert(ops@.skip(15) =~= shown@);
            ops
        },
        LCDCommand::PriceEntered(on_sent) => {
            let mut ops = entry_if(on_sent);
            push_all(&mut ops, setup_customer_msg());
            let shown = show_message(msg);
            let ghost head = ops@;
            push_all(&mut ops, shown);
            assert(ops@.take(head.len() as int) =~= head);
            assert(ops@.skip(head.len() as int) =~= shown@);
            ops
        },
        LCDCommand::ClearLastChar(on_sent) => {
            let mut ops = entry_if(on_sent);
            ops.push(LcdOp::ShiftLeft);
            ops.push(LcdOp::WriteChar(' '));
            ops.push(LcdOp::ShiftLeft);
            assert(ops@ =~= back_to_entry(on_sent) + erase_last());
            chars11_pop(msg);
            ops
        },
        LCDCommand::Character((c, on_sent)) => {
            let mut ops = entry_if(on_sent);
            if chars11_len(msg) < 11 {
                let c = char_value(c);
                ops.push(LcdOp::WriteChar(c));
                assert(ops@ == back_to_entry(on_sent) + seq![LcdOp::WriteChar(c)]);
            } else {
                assert(ops@ == back_to_entry(on_sent) + Seq::<LcdOp>::empty());
            }
            ops
        },
    }
}

/// What the LCD shows for `cmd` while the typed amount cannot be read (its
/// lock is held elsewhere): the screens are drawn, but no typed character is
/// shown, written or erased.
pub fn lcd_display_busy(cmd: LCDCommand) -> (r: Vec<LcdOp>)
    ensures
        cmd is Message ==> r@ == seq![LcdOp::Clear] + enter_price_screen(),
        cmd matches LCDCommand::SetupTransmissionMsg(on_sent) ==> r@ == back_to_entry(on_sent) + transmission_screen(),
        cmd matches LCDCommand::HealthCheck((health, on_sent)) ==>
            r@ == back_to_entry(on_sent) + seq![LcdOp::ShowNetwork(health.healthly)],
        cmd matches LCDCommand::PaymentDone((_, data)) ==> r@ == seq![LcdOp::ShowPaymentDone(data.first_name)],
        cmd is PreviousMsg ==> r@ == enter_price_screen(),
        cmd matches LCDCommand::PriceEntered(on_sent) ==> r@ == back_to_entry(on_sent) + total_price_screen(),
        cmd matches LCDCommand::ClearLastChar(on_sent) ==> r@ == back_to_entry(on_sent),
        cmd matches LCDCommand::Character((_, on_sent)) ==> r@ == back_to_entry(on_sent),
{
    match cmd {
        LCDCommand::PreviousMsg(_) => setup_lcd(),
        LCDCommand::PriceEntered(on_sent) => {
            let mut ops = entry_if(on_sent);
            push_all(&mut ops, setup_customer_msg());
            ops
        },
        LCDCommand::ClearLastChar(on_sent) => entry_if(on_sent),
        LCDCommand::Character((_, on_sent)) => entry_if(on_sent),
        other => {
            let mut unused: Chars11 = chars11_new();
            lcd_display(other, &mut unused)
        },
    }
}

/// `lcd_display`, when the command can be shown: `None`, with `msg`
/// unchanged, for a command to erase a character when no character is typed.
pub fn lcd_display_checked(cmd: LCDCommand, msg: &mut Chars11) -> (r: Option<Vec<LcdOp>>)
    ensures
        r is None <==> (cmd is ClearLastChar && chars11(*old(msg)).len() == 0),
        r is None ==> chars11(*final(msg)) == chars11(*old(msg)),
        r matches Some(ops) ==> displays(cmd, chars11(*old(msg)), chars11(*final(msg)), ops@),
{
    if let LCDCommand::ClearLastChar(_) = cmd {
        if chars11_len(msg) == 0 {
            return None;
        }
    }
    Some(lcd_display(cmd, msg))
}

/// A command that carries a set flag (the first command after a sale), and
/// a request for the previous amount, first bring back the price-entry
/// screen: the operations begin with it.
pub proof fn lemma_sent_flag_redraws_entry(cmd: LCDCommand, before: Seq<char>, after: Seq<char>, ops: Seq<LcdOp>)
    requires
        displays(cmd, before, after, ops),
        ({
            ||| cmd is PreviousMsg
            ||| cmd matches LCDCommand::SetupTransmissionMsg(on_sent) && on_sent
            ||| cmd matches LCDCommand::HealthCheck((_, on_sent)) && on_sent
            ||| cmd matches LCDCommand::PriceEntered(on_sent) && on_sent
            ||| cmd matches LCDCommand::ClearLastChar(on_sent) && on_sent
            ||| cmd matches LCDCommand::Character((_, on_sent)) && on_sent
        }),
    ensures
        ops.len() >= 15,
        ops.take(15) == enter_price_screen(),
{
    assert(enter_price_screen().len() == 15);
    match cmd {
        LCDCommand::SetupTransmissionMsg(on_sent) => {
            assert(on_sent);
            assert(transmission_screen().len() == 21);
            assert(ops == enter_price_screen() + transmission_screen());
            assert(ops.take(15) =~= enter_price_screen());
        },
        LCDCommand::HealthCheck((health, on_sent)) => {
            assert(on_sent);
            assert(ops.len() == 16);
            assert(ops.take(15) =~= enter_price_screen());
        },
        LCDCommand::PriceEntered(on_sent) => {
            assert(on_sent);
            let head = enter_price_screen() + total_price_screen();
            assert(total_price_screen().len() == 15);
            assert(ops.take(head.len() as int).take(15) =~= ops.take(15));
            assert(head.take(15) =~= enter_price_screen());
        },
        LCDCommand::ClearLastChar(on_sent) => {
            assert(on_sent);
            assert(ops.len() == 18);
            assert(ops.take(15) =~= enter_price_screen());
        },
        LCDCommand::Character((c, on_sent)) => {
            lemma_character_written(c, on_sent, before, after, ops);
        },
        _ => {},
    }
}

/// A typed character is written after whatever the flag asks for first,
/// while fewer than 11 characters are held; nothing is written once 11 are.
/// Showing it leaves the typed amount unchanged.
pub proof fn lemma_character_written(c: char, on_sent: bool, before: Seq<char>, after: Seq<char>, ops: Seq<LcdOp>)
    requires
        displays(LCDCommand::Character((c, on_sent)), before, after, ops),
    ensures
        after == before,
        ops.len() >= back_to_entry(on_sent).len(),
        ops.take(back_to_entry(on_sent).len() as int) == back_to_entry(on_sent),
        before.len() < 11 ==> ops.len() == (if on_sent { 16int } else { 1int }),
        before.len() < 11 ==> ops.last() == LcdOp::WriteChar(c),
        before.len() >= 11 ==> ops.len() == (if on_sent { 15int } else { 0int }),
        before.len() >= 11 ==> forall|i: int| 0 <= i < ops.len() ==> ops[i] == enter_price_screen()[i],
{
    assert(ops.take(back_to_entry(on_sent).len() as int) =~= back_to_entry(on_sent));
}

/// Erasing the last character removes it from the typed amount and moves
/// the cursor back over a blank.
pub proof fn lemma_clear_last_char(on_sent: bool, before: Seq<char>, after: Seq<char>, ops: Seq<LcdOp>)
    requires
        displays(LCDCommand::ClearLastChar(on_sent), before, after, ops),
    ensures
        after == before.drop_last(),
        ops.len() >= 3,
        ops.skip(ops.len() - 3) == erase_last(),
{
    assert((back_to_entry(on_sent) + erase_last()).skip(ops.len() - 3) =~= erase_last());
}

} // verus!
