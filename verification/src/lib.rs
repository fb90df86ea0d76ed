//! Core of a cooperative, interrupt-driven kernel: a text-mode display driver
//! over a fixed hardware surface, an interrupt-safe scancode queue with a
//! single-slot waker register, a poll-based scancode stream feeding the
//! keyboard decoder, and a cooperative executor that multiplexes tasks on one
//! execution context.

pub mod task;
pub mod vga_buffer;
