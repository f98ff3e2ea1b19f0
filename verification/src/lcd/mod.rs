//! What the LCD shows and how keypad input drives it.
pub mod control;
pub mod display;
pub mod main_lcd;
pub mod task;
