//! Hardware-adapter layer for an 8-bit interpreter with a 64x32 monochrome
//! display, a 16-key keypad and a single monotonic time source.
//!
//! The crate holds the adapter's logic: scaling the logical pixel grid onto a
//! physical framebuffer, decoding raw key events into a debounced "is this key
//! held" predicate, converting a calendar date to a linear nanosecond count,
//! and the per-step scheduling decision that paces emulation and signals
//! termination. Platform reads and writes (framebuffer, key poll, clocks) are
//! left to the surrounding program, which hands plain values in and out.

pub mod clock;
pub mod display;
pub mod hardware;
pub mod keypad;

pub use hardware::Hardware;
pub use keypad::KeyEvent;
pub use keypad::KeyInfo;
