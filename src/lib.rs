//! Command protocol core for a small serial-controlled board: a byte-at-a-time
//! command decoder, a drop-on-full byte queue for console output, a
//! time-driven LED blink scheduler, and the dispatcher that turns decoded
//! commands into actions and response text.
pub mod console;
pub mod decoder;
pub mod dispatch;
pub mod led;
pub mod ring;
pub mod text;
