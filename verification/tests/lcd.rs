use metal_terminal::buffers::Chars11;
use metal_terminal::cloud::pipe::{Healthly, MetalPaymentResponse};
use metal_terminal::lcd::control::{debounce, keypad_step, KeypadStep, AFTER_SALE_PAUSE_MS};
use metal_terminal::lcd::display::{setup_customer_msg, setup_lcd, setup_transmisson_msg, show_message, LcdOp};
use metal_terminal::lcd::main_lcd::{lcd_display, lcd_display_busy, lcd_display_checked};
use metal_terminal::lcd::task::{lcd_task, LCDCommand, TaskAction};

fn chars(s: &str) -> Chars11 {
    let mut m: Chars11 = heapless::Vec::new();
    for c in s.chars() {
        m.push(c).unwrap();
    }
    m
}

fn text(ops: &[LcdOp]) -> String {
    let mut out = String::new();
    for op in ops {
        match op {
            LcdOp::Clear => out.push('|'),
            LcdOp::WriteChar(c) => out.push(*c),
            LcdOp::SetCursor(p) => out.push_str(&format!("@{}", p)),
            LcdOp::ShiftLeft => out.push('<'),
            LcdOp::ShowNetwork(b) => out.push_str(&format!("[net {}]", b)),
            LcdOp::ShowPaymentDone(n) => out.push_str(&format!("[paid {}]", n)),
        }
    }
    out
}

#[test]
fn screens() {
    assert_eq!(text(&setup_lcd()), "|ENTER PRICE:@40N");
    assert_eq!(text(&setup_customer_msg()), "|Total Price:@40N");
    assert_eq!(text(&setup_transmisson_msg()), "|Payment in,@40progress");
}

#[test]
fn show_message_groups_thousands() {
    assert_eq!(text(&show_message(&chars("1234567"))), "1,234,567");
    assert_eq!(text(&show_message(&chars("123"))), "123");
    assert_eq!(text(&show_message(&chars("1234"))), "1,234");
    assert_eq!(text(&show_message(&chars(""))), "");
    assert_eq!(text(&show_message(&chars("12345678901"))), "12,345,678,901");
}

#[test]
fn typing_appends_up_to_eleven() {
    let mut on_sent = true;
    let mut prev = chars("");
    let mut msg = chars("1234567890");
    let mut can_type = true;
    let a = lcd_task(&mut on_sent, '7', &mut prev, &mut msg, &mut can_type);
    assert!(matches!(a, TaskAction::Post(LCDCommand::Character(('7', true)))));
    assert!(!on_sent);
    assert_eq!(msg.len(), 11);
    let b = lcd_task(&mut on_sent, '8', &mut prev, &mut msg, &mut can_type);
    assert!(matches!(b, TaskAction::Nothing));
    assert_eq!(msg.len(), 11);
    assert!(can_type);
}

#[test]
fn clear_then_restore_gives_amount_back() {
    let mut on_sent = false;
    let mut prev = chars("5");
    let mut msg = chars("250");
    let mut can_type = true;
    let a = lcd_task(&mut on_sent, 'M', &mut prev, &mut msg, &mut can_type);
    assert!(matches!(a, TaskAction::Post(LCDCommand::SetupTransmissionMsg(false))));
    assert!(msg.is_empty());
    assert_eq!(prev.as_slice(), &['2', '5', '0']);
    let b = lcd_task(&mut on_sent, 'B', &mut prev, &mut msg, &mut can_type);
    assert!(matches!(b, TaskAction::Post(LCDCommand::PreviousMsg(false))));
    assert_eq!(msg.as_slice(), &['2', '5', '0']);
}

#[test]
fn other_keys() {
    let mut on_sent = true;
    let mut prev = chars("");
    let mut msg = chars("");
    let mut can_type = true;
    assert!(matches!(lcd_task(&mut on_sent, 'C', &mut prev, &mut msg, &mut can_type), TaskAction::Nothing));
    assert!(!on_sent);
    on_sent = true;
    assert!(matches!(lcd_task(&mut on_sent, 'A', &mut prev, &mut msg, &mut can_type), TaskAction::CheckHealth(true)));
    msg = chars("9");
    assert!(matches!(lcd_task(&mut on_sent, 'C', &mut prev, &mut msg, &mut can_type), TaskAction::Post(LCDCommand::ClearLastChar(false))));
    assert_eq!(msg.len(), 1);
    assert!(matches!(lcd_task(&mut on_sent, 'D', &mut prev, &mut msg, &mut can_type), TaskAction::Post(LCDCommand::PriceEntered(false))));
    assert!(!can_type);
    assert_eq!(msg.as_slice(), &['9']);
}

#[test]
fn display_commands() {
    let mut msg = chars("1500");
    assert_eq!(text(&lcd_display(LCDCommand::Message(true), &mut msg)), "||ENTER PRICE:@40N");
    assert_eq!(text(&lcd_display(LCDCommand::PriceEntered(true), &mut msg)), "|ENTER PRICE:@40N|Total Price:@40N1,500");
    assert_eq!(text(&lcd_display(LCDCommand::PriceEntered(false), &mut msg)), "|Total Price:@40N1,500");
    assert_eq!(text(&lcd_display(LCDCommand::PreviousMsg(false), &mut msg)), "|ENTER PRICE:@40N1,500");
    assert_eq!(text(&lcd_display(LCDCommand::SetupTransmissionMsg(false), &mut msg)), "|Payment in,@40progress");
    assert_eq!(text(&lcd_display(LCDCommand::HealthCheck((Healthly { healthly: true }, false)), &mut msg)), "[net true]");
    let resp = MetalPaymentResponse { first_name: "Ada".to_string(), last_name: "L".to_string(), amount: 1500 };
    assert_eq!(text(&lcd_display(LCDCommand::PaymentDone((false, resp)), &mut msg)), "[paid Ada]");
    assert_eq!(text(&lcd_display(LCDCommand::Character(('7', false)), &mut msg)), "7");
    assert_eq!(text(&lcd_display(LCDCommand::ClearLastChar(false), &mut msg)), "< <");
    assert_eq!(msg.as_slice(), &['1', '5', '0']);
}

#[test]
fn character_at_capacity_is_not_written() {
    let mut msg = chars("12345678901");
    assert_eq!(text(&lcd_display(LCDCommand::Character(('1', false)), &mut msg)), "");
}

#[test]
fn clear_on_empty_is_refused() {
    let mut msg = chars("");
    assert!(lcd_display_checked(LCDCommand::ClearLastChar(false), &mut msg).is_none());
    let mut msg = chars("4");
    let ops = lcd_display_checked(LCDCommand::ClearLastChar(false), &mut msg).unwrap();
    assert_eq!(text(&ops), "< <");
    assert!(msg.is_empty());
    let mut msg = chars("1500");
    let ops = lcd_display_checked(LCDCommand::PriceEntered(false), &mut msg).unwrap();
    assert_eq!(text(&ops), "|Total Price:@40N1,500");
    assert_eq!(msg.as_slice(), &['1', '5', '0', '0']);
}

#[test]
fn debounce_holds_and_releases() {
    let mut last = ' ';
    assert_eq!(debounce('5', &mut last), Some('5'));
    assert_eq!(debounce('5', &mut last), None);
    assert_eq!(debounce(' ', &mut last), None);
    assert_eq!(last, ' ');
    assert_eq!(debounce('5', &mut last), Some('5'));
    assert_eq!(debounce('6', &mut last), Some('6'));
}

#[test]
fn grouping_only_inserts_commas() {
    let digits = "12345678901";
    for n in 1..=11 {
        let amount = &digits[..n];
        let shown = text(&show_message(&chars(amount)));
        assert_eq!(shown.replace(',', ""), amount);
        assert_eq!(shown.len(), n + (n - 1) / 3);
    }
}

#[test]
fn busy_amount_draws_screens_only() {
    assert_eq!(text(&lcd_display_busy(LCDCommand::PriceEntered(true))), "|ENTER PRICE:@40N|Total Price:@40N");
    assert_eq!(text(&lcd_display_busy(LCDCommand::PreviousMsg(false))), "|ENTER PRICE:@40N");
    assert_eq!(text(&lcd_display_busy(LCDCommand::Character(('4', false)))), "");
    assert_eq!(text(&lcd_display_busy(LCDCommand::ClearLastChar(true))), "|ENTER PRICE:@40N");
    assert_eq!(text(&lcd_display_busy(LCDCommand::Message(false))), "||ENTER PRICE:@40N");
}

#[test]
fn keypad_step_turns() {
    let mut last = ' ';
    assert!(matches!(keypad_step(false, true, '5', &mut last), KeypadStep::Wait));
    assert!(matches!(keypad_step(true, true, '5', &mut last), KeypadStep::AfterSale));
    assert_eq!(last, ' ');
    assert!(matches!(keypad_step(true, false, '5', &mut last), KeypadStep::Key('5')));
    assert!(matches!(keypad_step(true, false, '5', &mut last), KeypadStep::Idle));
    assert!(matches!(keypad_step(true, false, ' ', &mut last), KeypadStep::Idle));
    assert!(matches!(keypad_step(true, false, '5', &mut last), KeypadStep::Key('5')));
    assert_eq!(AFTER_SALE_PAUSE_MS, 7000);
}

#[test]
fn grouping_length_with_commas_in_amount() {
    let shown = text(&show_message(&chars("1,2,3,4")));
    assert_eq!(shown.chars().count(), 7 + 6 / 3);
}
