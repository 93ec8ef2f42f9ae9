//! Newline-aligned chunking of a byte stream.
//!
//! A stream arrives as a succession of reads. The reader sets an odd-sized
//! first line apart as a header, cuts the rest after the last newline that it
//! has seen, carries the unfinished tail over to the next read, and numbers
//! what it emits from zero.

pub mod lines;
pub mod reader;
pub mod dispatch;
pub mod stream;
