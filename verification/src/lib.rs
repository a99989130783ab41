//! Verified core of a binding to libcgroup, the Linux control-group library.
//!
//! The C library itself is reached from the `app` crate; this crate holds the
//! decisions around each call: how a return code becomes a result, how the
//! tree and mount iterators step, and how C buffers become Rust strings.
pub mod result;
pub mod cstr;
pub mod sys;
pub mod iter;
pub mod group;
pub mod init;
