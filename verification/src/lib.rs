//! Userspace NFSv4 client library: XDR wire codec, NFSv4 protocol types,
//! COMPOUND request construction and reply interpretation, and the
//! session-oriented client logic.
pub mod error;
pub mod xdr;
pub mod text;
pub mod rpc;
pub mod retry;
pub mod v4;
