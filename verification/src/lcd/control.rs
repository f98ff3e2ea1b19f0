//! Debouncing of keypad reads.
use vstd::prelude::*;

verus! {

/// The key a read `ch` hands on, `last` being the character of the previous
/// read: a key is handed on when it appears and differs from the one still
/// held.
pub open spec fn key_to_handle(ch: char, last: char) -> Option<char> {
    if ch != ' ' && ch != last { Some(ch) } else { None }
}

/// The character remembered after a read `ch`: the key read, or the blank
/// that releases it.
pub open spec fn last_after_read(ch: char, last: char) -> char {
    if ch != ' ' && ch == last { last } else { ch }
}

/// Decides what a keypad read `ch` does, given the character `last` seen on
/// the previous read. Returns the key to handle, if any, and updates `last`.
pub fn debounce(ch: char, last: &mut char) -> (r: Option<char>)
    ensures
        r == key_to_handle(ch, *old(last)),
        *final(last) == last_after_read(ch, *old(last)),
{
    if ch != ' ' {
        if ch != *last {
            *last = ch;
            Some(ch)
        } else {
            None
        }
    } else {
        *last = ' ';
        None
    }
}

/// What the keypad loop does on one turn.
pub enum KeypadStep {
    /// The keypad is locked: wait until it is woken.
    Wait,
    /// A payment went through: clear the amount with key `M`, wait
    /// `AFTER_SALE_PAUSE_MS`, hand key `P` to the key handling, and set the
    /// flag that brings the price-entry screen back.
    AfterSale,
    /// Hand this key to the key handling.
    Key(char),
    /// Nothing to do on this turn.
    Idle,
}

/// How long, in milliseconds, the loop waits after clearing the amount of a
/// completed sale.
pub const AFTER_SALE_PAUSE_MS: u32 = 7000;

/// One turn of the keypad loop. `can_type` is whether the keypad accepts
/// input, `sent` whether a payment went through since the last turn (the
/// flag is consumed), and `ch` the character of the keypad read, which is
/// taken only when the keypad accepts input and no payment went through;
/// `last` is the character of the previous read.
pub fn keypad_step(can_type: bool, sent: bool, ch: char, last: &mut char) -> (r: KeypadStep)
    ensures
        !can_type ==> r is Wait && *final(last) == *old(last),
        can_type && sent ==> r is AfterSale && *final(last) == *old(last),
        can_type && !sent ==> *final(last) == last_after_read(ch, *old(last)),
        can_type && !sent && key_to_handle(ch, *old(last)) is None ==> r is Idle,
        can_type && !sent ==> (key_to_handle(ch, *old(last)) matches Some(c) ==> r == KeypadStep::Key(c)),
{
    if !can_type {
        KeypadStep::Wait
    } else if sent {
        KeypadStep::AfterSale
    } else {
        match debounce(ch, last) {
            Some(c) => KeypadStep::Key(c),
            None => KeypadStep::Idle,
        }
    }
}

/// A key held over two reads is handled at most once, and is handled again
/// after a blank read in between.
pub proof fn lemma_held_key_once(ch: char, last: char)
    requires
        ch != ' ',
    ensures
        key_to_handle(ch, last_after_read(ch, last)) is None,
        key_to_handle(ch, last_after_read(' ', last_after_read(ch, last))) == Some(ch),
{
}

} // verus!
