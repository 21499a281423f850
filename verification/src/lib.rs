//! Adapters that let a Rust stream, reader or sink stand behind a JavaScript
//! `ReadableStream` or `WritableStream`.
//!
//! Each adapter is a small state machine. It owns the Rust side (a stream, a
//! reader, a sink), gives it up for the length of one asynchronous operation,
//! and takes it back only where the operation left it fit for reuse. The types
//! are generic over that Rust side, over chunks and over errors: the machines
//! move such values and never look inside them.
#![allow(unused_imports)]

pub mod abort;
pub mod pull;
pub mod readable;
mod shared;
pub mod slot;
pub mod throw;
pub mod util;
pub mod writable;
