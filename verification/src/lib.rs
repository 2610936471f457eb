//! A small library behind a pixel-buffer viewer: a pool of fixed-size
//! in-memory pixel buffers is allocated to fit a megabyte budget, one buffer
//! at a time is shown in a window, and key presses cycle a cursor through the
//! pool or export the frame on display as a PNG file.
//!
//! The library holds everything the tool decides or computes: command-line
//! parsing, the buffer-count arithmetic, the cursor state machine driven by
//! input events, and the frame export (alpha normalization, PNG encoding and
//! the file name). The windowing, event polling and file writing around it
//! are left to the binary that drives the loop.

pub mod args;
pub mod cursor;
pub mod export;
