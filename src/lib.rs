//! Copying between standard streams and the clipboard: the decisions and
//! the byte layouts, independent of the operating system calls.
pub mod text;
pub mod envelope;
pub mod invocation;
pub mod transfer;
