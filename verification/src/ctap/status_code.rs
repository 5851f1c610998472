use vstd::prelude::*;

verus! {

/// The status codes that the large blob command can answer with.
#[allow(non_camel_case_types)]
#[derive(Clone, Copy, Debug, PartialEq, Eq, Structural)]
pub enum Ctap2StatusCode {
    /// A fragment, sent or asked for, is longer than one message can carry.
    CTAP1_ERR_INVALID_LENGTH,
    /// A fragment does not start where the previous one ended.
    CTAP1_ERR_INVALID_SEQ,
    /// A parameter is missing or contradicts the ongoing transfer.
    CTAP1_ERR_INVALID_PARAMETER,
    /// A PIN is set and the command carries no authentication parameter.
    CTAP2_ERR_PUAT_REQUIRED,
    /// The authentication parameter does not verify.
    CTAP2_ERR_PIN_AUTH_INVALID,
    /// The token in use does not carry the permission that the command needs.
    CTAP2_ERR_UNAUTHORIZED_PERMISSION,
    /// The reassembled blob does not end in the checksum of its payload.
    CTAP2_ERR_INTEGRITY_FAILURE,
    /// The blob does not fit into the storage set aside for it.
    CTAP2_ERR_LARGE_BLOB_STORAGE_FULL,
}

} // verus!
