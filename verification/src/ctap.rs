//! The command layer: requests, responses, status codes and the state that
//! commands act on.
pub mod command;
pub mod large_blobs;
pub mod pin_protocol_v1;
pub mod response;
pub mod status_code;
pub mod storage;
pub mod transfer;
