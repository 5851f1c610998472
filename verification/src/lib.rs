//! Fragmented, integrity-checked transfer of the large blob array of a CTAP2
//! authenticator.
//!
//! A blob larger than one transport message is written and read in fragments.
//! [`ctap::large_blobs::LargeBlobs`] keeps the state of a write between
//! commands, enforces the order and size of the fragments, authenticates each
//! of them when a PIN is set, and commits a reassembled blob only once its
//! trailing checksum has been verified.
pub mod bytes;
pub mod ctap;
pub mod primitives;
