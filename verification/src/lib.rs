//! Shared helper library for the kiosk display family.
//!
//! It covers exactly the two things the kiosk client and the lock server must
//! agree on byte for byte: the display-socket [`wire`] protocol and the
//! host-collector [`feed`] schema. The compat invariants are named once here:
//! the wire magic stays `NIXLOCK1`, the server socket file stays
//! `nixlock.sock`, and a missing or stale feed reads as pending rows, never as
//! an error screen.

pub mod feed;
pub mod wire;

pub use feed::{HostFeedFile, STALE_AFTER_SECS};
pub use wire::{
    decode_frame_header, decode_hello, encode_frame_header, encode_hello, Geometry, HELLO_LEN,
    MAGIC, MAGIC_BYTES, MAX_FRAME_BYTES,
};
