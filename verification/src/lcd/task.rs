//! What a key press does to the typed amount, and what the LCD is told.
use vstd::prelude::*;
use crate::buffers::{Chars11, chars11, chars11_clear, chars11_get, chars11_len, chars11_push};
use crate::cloud::pipe::{Healthly, MetalPaymentResponse};

verus! {

/// A request to the LCD task; the flag says whether the screen must first be
/// brought back to the price entry.
pub enum LCDCommand {
    Message(bool),
    SetupTransmissionMsg(bool),
    HealthCheck((Healthly, bool)),
    PaymentDone((bool, MetalPaymentResponse)),
    PreviousMsg(bool),
    PriceEntered(bool),
    ClearLastChar(bool),
    Character((char, bool)),
}

/// What the caller has to do after a key press.
pub enum TaskAction {
    /// Hand this command to the LCD task.
    Post(LCDCommand),
    /// Ask the payment service for its health, and hand the LCD task a
    /// `HealthCheck` with the answer and this flag.
    CheckHealth(bool),
    /// Nothing.
    Nothing,
}

/// The typed amount after key `value`: `M` clears it, `B` brings back the
/// previous one, `A`, `C` and `D` leave it, any other key is appended while
/// fewer than 11 characters are held.
pub open spec fn msg_after_key(value: char, previous: Seq<char>, msg: Seq<char>) -> Seq<char> {
    if value == 'M' {
        Seq::<char>::empty()
    } else if value == 'B' {
        previous
    } else if value == 'A' || value == 'C' || value == 'D' {
        msg
    } else if msg.len() < 11 {
        msg.push(value)
    } else {
        msg
    }
}

/// The previous amount after key `value`: `M` keeps the amount it clears.
pub open spec fn previous_after_key(value: char, previous: Seq<char>, msg: Seq<char>) -> Seq<char> {
    if value == 'M' { msg } else { previous }
}

/// Whether the keypad still accepts input after key `value`: `D` (price
/// entered) locks it.
pub open spec fn can_type_after_key(value: char, can_type: bool) -> bool {
    if value == 'D' { false } else { can_type }
}

/// What the LCD task is told after key `value`, `on_sent` being the flag
/// before the key.
pub open spec fn action_for_key(value: char, on_sent: bool, msg: Seq<char>) -> TaskAction {
    if value == 'M' {
        TaskAction::Post(LCDCommand::SetupTransmissionMsg(on_sent))
    } else if value == 'A' {
        TaskAction::CheckHealth(on_sent)
    } else if value == 'B' {
        TaskAction::Post(LCDCommand::PreviousMsg(on_sent))
    } else if value == 'D' {
        TaskAction::Post(LCDCommand::PriceEntered(on_sent))
    } else if value == 'C' {
        if msg.len() > 0 { TaskAction::Post(LCDCommand::ClearLastChar(on_sent)) } else { TaskAction::Nothing }
    } else if msg.len() < 11 {
        TaskAction::Post(LCDCommand::Character((value, on_sent)))
    } else {
        TaskAction::Nothing
    }
}

/// Copies the characters of `from` into `to`.
fn copy_chars(to: &mut Chars11, from: &Chars11)
    ensures
        chars11(*final(to)) == chars11(*from),
{
    chars11_clear(to);
    let n = chars11_len(from);
    for i in 0..n
        invariant
            n == chars11(*from).len(),
            n <= 11,
            chars11(*to) == chars11(*from).take(i as int),
    {
        let c = chars11_get(from, i);
        chars11_push(to, c);
        assert(chars11(*from).take(i + 1) == chars11(*from).take(i as int).push(c));
    }
    assert(chars11(*from).take(n as int) == chars11(*from));
}

/// Handles key `value`: updates the typed and previous amounts and the
/// keypad lock, tells what the LCD task is to be handed, and clears
/// `on_sent`.
pub fn lcd_task(
    on_sent: &mut bool,
    value: char,
    previous_msg: &mut Chars11,
    msg: &mut Chars11,
    can_type: &mut bool,
) -> (r: TaskAction)
    ensures
        chars11(*final(msg)) == msg_after_key(value, chars11(*old(previous_msg)), chars11(*old(msg))),
        chars11(*final(previous_msg)) == previous_after_key(value, chars11(*old(previous_msg)), chars11(*old(msg))),
        *final(can_type) == can_type_after_key(value, *old(can_type)),
        r == action_for_key(value, *old(on_sent), chars11(*old(msg))),
        !*final(on_sent),
{
    let r = if value == 'M' {
        copy_chars(previous_msg, msg);
        chars11_clear(msg);
        TaskAction::Post(LCDCommand::SetupTransmissionMsg(*on_sent))
    } else if value == 'A' {
        TaskAction::CheckHealth(*on_sent)
    } else if value == 'B' {
        copy_chars(msg, previous_msg);
        TaskAction::Post(LCDCommand::PreviousMsg(*on_sent))
    } else if value == 'D' {
        *can_type = false;
        TaskAction::Post(LCDCommand::PriceEntered(*on_sent))
    } else if value == 'C' {
        if chars11_len(msg) != 0 {
            TaskAction::Post(LCDCommand::ClearLastChar(*on_sent))
        } else {
            TaskAction::Nothing
        }
    } else {
        if chars11_len(msg) < 11 {
            chars11_push(msg, value);
            TaskAction::Post(LCDCommand::Character((value, *on_sent)))
        } else {
            TaskAction::Nothing
        }
    };
    *on_sent = false;
    r
}

/// `M` followed by `B` gives the amount back: `B` restores what `M` cleared,
/// and the previous amount is that amount too.
pub proof fn lemma_clear_then_restore(previous: Seq<char>, msg: Seq<char>)
    ensures
        msg_after_key('B', previous_after_key('M', previous, msg), msg_after_key('M', previous, msg)) == msg,
        previous_after_key('B', previous_after_key('M', previous, msg), msg_after_key('M', previous, msg)) == msg,
{
}

/// No key makes the typed amount longer than 11 characters.
pub proof fn lemma_amount_bounded(value: char, previous: Seq<char>, msg: Seq<char>)
    requires
        previous.len() <= 11,
        msg.len() <= 11,
    ensures
        msg_after_key(value, previous, msg).len() <= 11,
        previous_after_key(value, previous, msg).len() <= 11,
{
}

/// A key other than `M`, `A`, `B`, `C` and `D`, pressed while fewer than 11
/// characters are typed, is appended at the end of the typed amount: the
/// amount grows by one, keeps what it held in front, and ends with the key,
/// which the LCD task is told to show.
pub proof fn lemma_key_appends(value: char, on_sent: bool, previous: Seq<char>, msg: Seq<char>)
    requires
        value != 'M' && value != 'A' && value != 'B' && value != 'C' && value != 'D',
        msg.len() < 11,
    ensures
        msg_after_key(value, previous, msg) == msg.push(value),
        msg_after_key(value, previous, msg).len() == msg.len() + 1,
        msg_after_key(value, previous, msg).take(msg.len() as int) == msg,
        msg_after_key(value, previous, msg).last() == value,
        previous_after_key(value, previous, msg) == previous,
        action_for_key(value, on_sent, msg) == TaskAction::Post(LCDCommand::Character((value, on_sent))),
{
    assert(msg.push(value).take(msg.len() as int) =~= msg);
}

/// Once 11 characters are typed, a further key other than `M`, `A`, `B`,
/// `C` and `D` changes nothing and nothing is shown.
pub proof fn lemma_full_amount_ignores_key(value: char, on_sent: bool, previous: Seq<char>, msg: Seq<char>)
    requires
        value != 'M' && value != 'A' && value != 'B' && value != 'C' && value != 'D',
        msg.len() >= 11,
    ensures
        msg_after_key(value, previous, msg) == msg,
        previous_after_key(value, previous, msg) == previous,
        action_for_key(value, on_sent, msg) is Nothing,
{
}

/// Key `B` replaces the typed amount by the previous one, whatever was
/// typed, keeps the previous amount, and has the LCD show it.
pub proof fn lemma_key_b_restores(on_sent: bool, previous: Seq<char>, msg: Seq<char>)
    ensures
        msg_after_key('B', previous, msg) == previous,
        previous_after_key('B', previous, msg) == previous,
        action_for_key('B', on_sent, msg) == TaskAction::Post(LCDCommand::PreviousMsg(on_sent)),
{
}

/// Key `M` clears the typed amount, keeps it as the previous amount, and
/// has the LCD show the transmission screen.
pub proof fn lemma_key_m_clears(on_sent: bool, previous: Seq<char>, msg: Seq<char>)
    ensures
        msg_after_key('M', previous, msg).len() == 0,
        previous_after_key('M', previous, msg) == msg,
        action_for_key('M', on_sent, msg) == TaskAction::Post(LCDCommand::SetupTransmissionMsg(on_sent)),
{
}

/// Keys `A`, `C` and `D` leave both amounts as they are; `D` locks the
/// keypad, `A` and `C` leave the lock as it is.
pub proof fn lemma_keys_keep_amount(value: char, can_type: bool, previous: Seq<char>, msg: Seq<char>)
    requires
        value == 'A' || value == 'C' || value == 'D',
    ensures
        msg_after_key(value, previous, msg) == msg,
        previous_after_key(value, previous, msg) == previous,
        !can_type_after_key('D', can_type),
        value != 'D' ==> can_type_after_key(value, can_type) == can_type,
{
}

/// Key `C` asks the LCD to erase the last character when one is typed, and
/// asks nothing otherwise; `A` asks for a health check; `D` announces the
/// entered price.
pub proof fn lemma_key_actions(on_sent: bool, msg: Seq<char>)
    ensures
        msg.len() > 0 ==> action_for_key('C', on_sent, msg) == TaskAction::Post(LCDCommand::ClearLastChar(on_sent)),
        msg.len() == 0 ==> action_for_key('C', on_sent, msg) is Nothing,
        action_for_key('A', on_sent, msg) == TaskAction::CheckHealth(on_sent),
        action_for_key('D', on_sent, msg) == TaskAction::Post(LCDCommand::PriceEntered(on_sent)),
{
}

/// Only `D` changes the lock, and no key unlocks a locked keypad.
pub proof fn lemma_lock_kept(value: char, can_type: bool)
    ensures
        value != 'D' ==> can_type_after_key(value, can_type) == can_type,
        !can_type ==> !can_type_after_key(value, can_type),
{
}

} // verus!
