//! The core of an embeddable HTTP/1.x server engine, written without I/O.
//!
//! Sockets, threads and the host callback live outside this crate. What is
//! here are the rules they follow: the kill switch, the worker pool's
//! bookkeeping, the accept loop's decisions, the read buffer of a connection
//! and the parser of a request head. Every function is verified against the
//! contract it states. The three functions of the standard library that the
//! code relies on without a proof are named where they are declared, each
//! with what is believed of it.

pub mod owner;
pub mod server;
pub mod thread;
