use super::command::{AuthenticatorLargeBlobsParameters, LargeBlobsRequest};
use super::pin_protocol_v1::{
    check_pin_uv_auth_protocol, spec_check_pin_uv_auth_protocol, PinPermission, PinProtocolV1,
    PinState,
};
use super::response::{result_view, AuthenticatorLargeBlobsResponse, ResponseData};
use super::status_code::Ctap2StatusCode;
use super::storage::{PersistentStore, StoreState};
use crate::bytes::{append_bytes, ranges_equal};
use crate::primitives::{encode_u32_le, hash256, sha256, u32_le_bytes};
use vstd::prelude::*;
use vstd::slice::slice_subrange;

verus! {

/// The longest message that the transport carries.
pub const MAX_MSG_SIZE: usize = 1024;

/// The longest fragment that one command reads or writes: a message less
/// the room that the rest of the command takes.
pub const MAX_FRAGMENT_LENGTH: usize = MAX_MSG_SIZE - 64;

/// The length of the truncated hash that ends a large blob array.
pub const TRUNCATED_HASH_LEN: usize = 16;

/// The leading [`TRUNCATED_HASH_LEN`] bytes of `digest`.
pub open spec fn truncated(digest: Seq<u8>) -> Seq<u8> {
    digest.subrange(0, TRUNCATED_HASH_LEN as int)
}

/// Whether `large_blob_array` ends in the leading bytes of `payload_digest`.
pub open spec fn ends_in_checksum(large_blob_array: Seq<u8>, payload_digest: Seq<u8>) -> bool {
    &&& large_blob_array.len() >= TRUNCATED_HASH_LEN
    &&& large_blob_array.subrange(
        large_blob_array.len() - TRUNCATED_HASH_LEN,
        large_blob_array.len() as int,
    ) == truncated(payload_digest)
}

/// The part of `large_blob_array` that its checksum covers: all but the last
/// [`TRUNCATED_HASH_LEN`] bytes.
pub open spec fn payload(large_blob_array: Seq<u8>) -> Seq<u8>
    recommends
        large_blob_array.len() >= TRUNCATED_HASH_LEN,
{
    large_blob_array.subrange(0, large_blob_array.len() - TRUNCATED_HASH_LEN)
}

/// Whether `large_blob_array` is a payload followed by the truncated SHA-256
/// digest of that payload.
pub open spec fn has_valid_checksum(large_blob_array: Seq<u8>) -> bool {
    &&& large_blob_array.len() >= TRUNCATED_HASH_LEN
    &&& ends_in_checksum(large_blob_array, sha256(payload(large_blob_array)))
}

/// The message that authenticates the write of a fragment at `offset`, given
/// the SHA-256 digest of the fragment: 32 bytes `0xFF`, the bytes `0x0C` and
/// `0x00`, the low 32 bits of `offset` in little endian order, the digest.
pub open spec fn signing_message_of_digest(offset: nat, fragment_digest: Seq<u8>) -> Seq<u8> {
    Seq::new(32, |i: int| 0xFFu8) + seq![0x0Cu8, 0x00u8] + u32_le_bytes(offset as u32)
        + fragment_digest
}

/// The message that authenticates the write of `fragment` at `offset`.
pub open spec fn signing_message(offset: nat, fragment: Seq<u8>) -> Seq<u8> {
    signing_message_of_digest(offset, sha256(fragment))
}

/// Whether `large_blob_array` ends in the checksum that `payload_digest`,
/// the SHA-256 digest of its payload, gives.
pub fn checksum_matches(large_blob_array: &[u8], payload_digest: &[u8; 32]) -> (matches: bool)
    ensures
        matches == ends_in_checksum(large_blob_array@, payload_digest@),
{
    let length = large_blob_array.len();
    if length < TRUNCATED_HASH_LEN {
        return false;
    }
    ranges_equal(
        large_blob_array,
        length - TRUNCATED_HASH_LEN,
        payload_digest.as_slice(),
        0,
        TRUNCATED_HASH_LEN,
    )
}

/// Builds the message that authenticates the write of a fragment at
/// `offset`, given the SHA-256 digest of the fragment.
pub fn build_signing_message(offset: usize, fragment_digest: &[u8; 32]) -> (message: Vec<u8>)
    ensures
        message@ == signing_message_of_digest(offset as nat, fragment_digest@),
{
    let mut message: Vec<u8> = Vec::new();
    let mut count: usize = 0;
    while count < 32
        invariant
            count <= 32,
            message@ == Seq::new(count as nat, |i: int| 0xFFu8),
        decreases 32 - count,
    {
        message.push(0xFF);
        count += 1;
    }
    message.push(0x0C);
    message.push(0x00);
    let offset_bytes = encode_u32_le(offset as u32);
    append_bytes(&mut message, offset_bytes.as_slice());
    append_bytes(&mut message, fragment_digest.as_slice());
    message
}

/// What is kept of a write between two commands.
pub struct LargeBlobs {
    buffer: Vec<u8>,
    expected_length: usize,
    expected_next_offset: usize,
}

/// The mathematical content of a [`LargeBlobs`].
pub struct SessionState {
    /// The bytes received so far.
    pub buffer: Seq<u8>,
    /// The length of the whole array, as declared with the first fragment.
    pub expected_length: nat,
    /// Where the next fragment has to start.
    pub expected_next_offset: nat,
}

impl SessionState {
    /// The state in which no write is under way.
    pub open spec fn idle() -> SessionState {
        SessionState { buffer: Seq::empty(), expected_length: 0, expected_next_offset: 0 }
    }

    /// The state once a write of `expected_length` bytes was announced: the
    /// length is noted and the next fragment is expected at 0. The bytes
    /// received before stay until the first fragment of the new write is
    /// taken.
    pub open spec fn restarted(self, expected_length: nat) -> SessionState {
        SessionState { buffer: self.buffer, expected_length, expected_next_offset: 0 }
    }

    /// The state in which `buffer` was received of a write of
    /// `expected_length` bytes.
    pub open spec fn receiving(buffer: Seq<u8>, expected_length: nat) -> SessionState {
        SessionState { buffer, expected_length, expected_next_offset: buffer.len() }
    }

    /// Unless the next fragment is expected at 0, it is expected where the
    /// received bytes end, and they are fewer than the declared length.
    pub open spec fn wf(self) -> bool {
        ||| self.expected_next_offset == 0
        ||| self.expected_next_offset == self.buffer.len() && self.buffer.len()
            < self.expected_length
    }
}

/// What a command leaves behind and answers with.
pub struct Transition {
    pub session: SessionState,
    pub store: StoreState,
    /// The fragment read, nothing after a write, or why the command failed.
    pub response: Result<Option<Seq<u8>>, Ctap2StatusCode>,
}

/// Whether the write that `request` asks for may go ahead. Without an
/// enrolled PIN every write may. With one, the command has to carry an
/// authentication parameter and a protocol version that is spoken, the
/// token has to permit writing large blobs, and the parameter has to
/// authenticate the signing message of the fragment.
pub open spec fn authorization(store: StoreState, pin: PinState, request: LargeBlobsRequest)
    -> Result<(), Ctap2StatusCode>
    recommends
        request.set is Some,
{
    if store.pin_hash is None {
        Ok(())
    } else if request.pin_uv_auth_param is None {
        Err(Ctap2StatusCode::CTAP2_ERR_PUAT_REQUIRED)
    } else if spec_check_pin_uv_auth_protocol(request.pin_uv_auth_protocol) is Err {
        spec_check_pin_uv_auth_protocol(request.pin_uv_auth_protocol)
    } else if !pin.has_permission(PinPermission::LargeBlobWrite) {
        Err(Ctap2StatusCode::CTAP2_ERR_UNAUTHORIZED_PERMISSION)
    } else if !pin.verifies(
        signing_message(request.offset, request.set.unwrap()),
        request.pin_uv_auth_param.unwrap(),
    ) {
        Err(Ctap2StatusCode::CTAP2_ERR_PIN_AUTH_INVALID)
    } else {
        Ok(())
    }
}

/// The session that the write of `request` is checked against: at offset 0
/// the one that the declared length announces; elsewhere the one under way.
pub open spec fn session_at(session: SessionState, request: LargeBlobsRequest) -> SessionState
    recommends
        request.offset == 0 ==> request.length is Some,
{
    if request.offset == 0 {
        session.restarted(request.length.unwrap())
    } else {
        session
    }
}

/// The bytes received once the fragment of `request` is taken: at offset 0
/// the fragment alone; elsewhere the bytes received before, then the
/// fragment.
pub open spec fn received(session: SessionState, request: LargeBlobsRequest) -> Seq<u8>
    recommends
        request.set is Some,
{
    if request.offset == 0 {
        request.set.unwrap()
    } else {
        session.buffer + request.set.unwrap()
    }
}

/// Why the write of `request` is turned down, if it is. The checks are made
/// in this order: the length of the fragment, the declared length at offset
/// 0, the offset, the authorization, the end of the fragment against the
/// declared length.
pub open spec fn rejection(
    session: SessionState,
    store: StoreState,
    pin: PinState,
    request: LargeBlobsRequest,
) -> Option<Ctap2StatusCode>
    recommends
        request.set is Some,
{
    let fragment = request.set.unwrap();
    let current = session_at(session, request);
    let authorized = authorization(store, pin, request);
    if fragment.len() > MAX_FRAGMENT_LENGTH {
        Some(Ctap2StatusCode::CTAP1_ERR_INVALID_LENGTH)
    } else if request.offset == 0 && request.length is None {
        Some(Ctap2StatusCode::CTAP1_ERR_INVALID_PARAMETER)
    } else if request.offset != current.expected_next_offset {
        Some(Ctap2StatusCode::CTAP1_ERR_INVALID_SEQ)
    } else if authorized is Err {
        Some(authorized->Err_0)
    } else if request.offset + fragment.len() > current.expected_length {
        Some(Ctap2StatusCode::CTAP1_ERR_INVALID_PARAMETER)
    } else {
        None
    }
}

/// Whether the write of `request` has announced a new session by the time
/// it is turned down or taken: it is at offset 0, of an admissible length,
/// and declares the length of the array.
pub open spec fn restarts(request: LargeBlobsRequest) -> bool
    recommends
        request.set is Some,
{
    &&& request.set.unwrap().len() <= MAX_FRAGMENT_LENGTH
    &&& request.offset == 0
    &&& request.length is Some
}

/// Whether `request` is carried out as a write: it brings a fragment and
/// asks for no bytes.
pub open spec fn is_write(request: LargeBlobsRequest) -> bool {
    request.get is None && request.set is Some
}

/// Whether `request` reads or writes more than one message carries.
pub open spec fn exceeds_fragment_length(request: LargeBlobsRequest) -> bool {
    ||| request.get is Some && request.get.unwrap() > MAX_FRAGMENT_LENGTH
    ||| is_write(request) && request.set.unwrap().len() > MAX_FRAGMENT_LENGTH
}

/// Whether `request` carries an authentication parameter that
/// authenticates the signing message of its fragment.
pub open spec fn is_authenticated(pin: PinState, request: LargeBlobsRequest) -> bool
    recommends
        request.set is Some,
{
    &&& request.pin_uv_auth_param is Some
    &&& pin.verifies(
        signing_message(request.offset, request.set.unwrap()),
        request.pin_uv_auth_param.unwrap(),
    )
}

/// Whether the fragment of `request` is taken and is the last of its array.
pub open spec fn completes(
    session: SessionState,
    store: StoreState,
    pin: PinState,
    request: LargeBlobsRequest,
) -> bool
    recommends
        request.set is Some,
{
    &&& rejection(session, store, pin, request) is None
    &&& received(session, request).len() == session_at(session, request).expected_length
}

/// Whether `result` is the error `status`.
pub open spec fn failed_with(result: Result<ResponseData, Ctap2StatusCode>, status: Ctap2StatusCode)
    -> bool {
    result matches Err(error) && error == status
}

/// The end of a write: `large_blob_array` is committed if its checksum is
/// valid and the store takes it. Whatever comes of it, the session is over.
pub open spec fn finalize(store: StoreState, large_blob_array: Seq<u8>) -> Transition {
    if !has_valid_checksum(large_blob_array) {
        Transition {
            session: SessionState::idle(),
            store,
            response: Err(Ctap2StatusCode::CTAP2_ERR_INTEGRITY_FAILURE),
        }
    } else if !StoreState::accepts(large_blob_array) {
        Transition {
            session: SessionState::idle(),
            store,
            response: Err(Ctap2StatusCode::CTAP2_ERR_LARGE_BLOB_STORAGE_FULL),
        }
    } else {
        Transition {
            session: SessionState::idle(),
            store: store.with_array(large_blob_array),
            response: Ok(None),
        }
    }
}

/// What the write of `request` does. A fragment that is turned down leaves
/// the store and the bytes received as they were; one which restarts has
/// by then noted the declared length and set the expected offset to 0, any
/// other has changed nothing. A fragment that is taken is added to the
/// bytes received, which at offset 0 it replaces; when they reach the
/// declared length, the write ends.
pub open spec fn write(
    session: SessionState,
    store: StoreState,
    pin: PinState,
    request: LargeBlobsRequest,
) -> Transition
    recommends
        request.set is Some,
{
    let current = session_at(session, request);
    match rejection(session, store, pin, request) {
        Some(status) => Transition {
            session: if restarts(request) {
                current
            } else {
                session
            },
            store,
            response: Err(status),
        },
        None => if completes(session, store, pin, request) {
            finalize(store, received(session, request))
        } else {
            Transition {
                session: SessionState::receiving(
                    received(session, request),
                    current.expected_length,
                ),
                store,
                response: Ok(None),
            }
        },
    }
}

/// What the read of `byte_count` bytes at `offset` does: nothing but
/// answer, and not even that when more is asked for than one message
/// carries.
pub open spec fn read(session: SessionState, store: StoreState, byte_count: nat, offset: nat)
    -> Transition {
    Transition {
        session,
        store,
        response: if byte_count > MAX_FRAGMENT_LENGTH {
            Err(Ctap2StatusCode::CTAP1_ERR_INVALID_LENGTH)
        } else {
            Ok(Some(store.read(byte_count, offset)))
        },
    }
}

/// What a large blob command does: a read if it asks for bytes, else a
/// write if it brings a fragment, else nothing but an error.
pub open spec fn process(
    session: SessionState,
    store: StoreState,
    pin: PinState,
    request: LargeBlobsRequest,
) -> Transition {
    if request.get is Some {
        read(session, store, request.get.unwrap(), request.offset)
    } else if request.set is Some {
        write(session, store, pin, request)
    } else {
        Transition {
            session,
            store,
            response: Err(Ctap2StatusCode::CTAP1_ERR_INVALID_PARAMETER),
        }
    }
}

impl View for LargeBlobs {
    type V = SessionState;

    closed spec fn view(&self) -> SessionState {
        SessionState {
            buffer: self.buffer@,
            expected_length: self.expected_length as nat,
            expected_next_offset: self.expected_next_offset as nat,
        }
    }
}

/// Whether `large_blob_array` ends in the truncated SHA-256 digest of what
/// precedes it.
fn verify_checksum(large_blob_array: &[u8]) -> (valid: bool)
    ensures
        valid == has_valid_checksum(large_blob_array@),
{
    let length = large_blob_array.len();
    if length < TRUNCATED_HASH_LEN {
        return false;
    }
    let digest = hash256(slice_subrange(large_blob_array, 0, length - TRUNCATED_HASH_LEN));
    checksum_matches(large_blob_array, &digest)
}

/// Decides whether the write that `large_blobs_params` asks for may go
/// ahead.
fn authorize(
    persistent_store: &PersistentStore,
    pin_protocol_v1: &PinProtocolV1,
    fragment: &[u8],
    large_blobs_params: &AuthenticatorLargeBlobsParameters,
) -> (result: Result<(), Ctap2StatusCode>)
    requires
        large_blobs_params@.set == Some(fragment@),
    ensures
        result == authorization(persistent_store@, pin_protocol_v1@, large_blobs_params@),
{
    if persistent_store.pin_hash().is_none() {
        return Ok(());
    }
    let pin_uv_auth_param = match &large_blobs_params.pin_uv_auth_param {
        Some(param) => param,
        None => {
            return Err(Ctap2StatusCode::CTAP2_ERR_PUAT_REQUIRED);
        },
    };
    check_pin_uv_auth_protocol(large_blobs_params.pin_uv_auth_protocol)?;
    pin_protocol_v1.has_permission(PinPermission::LargeBlobWrite)?;
    let message = build_signing_message(large_blobs_params.offset, &hash256(fragment));
    if !pin_protocol_v1.verify_pin_auth_token(message.as_slice(), pin_uv_auth_param.as_slice()) {
        return Err(Ctap2StatusCode::CTAP2_ERR_PIN_AUTH_INVALID);
    }
    Ok(())
}

impl LargeBlobs {
    /// See [`SessionState::wf`].
    pub open spec fn wf(&self) -> bool {
        self@.wf()
    }

    /// The state of an authenticator on which no write is under way.
    pub fn new() -> (large_blobs: LargeBlobs)
        ensures
            large_blobs@ == SessionState::idle(),
            large_blobs.wf(),
    {
        LargeBlobs { buffer: Vec::new(), expected_length: 0, expected_next_offset: 0 }
    }

    /// Processes a large blob command.
    ///
    /// A read answers with a fragment of the committed array and changes
    /// nothing. A write checks its fragment, adds it to the bytes received
    /// and, with the last of them, commits the array if its checksum is
    /// valid. [`process`] says all of it; the clauses after the first five
    /// spell out what it means for the store, for fragments that are turned
    /// down, fragments out of order, fragments that are too long, arrays
    /// with a wrong checksum and writes that are not authenticated.
    pub fn process_command(
        &mut self,
        persistent_store: &mut PersistentStore,
        pin_protocol_v1: &mut PinProtocolV1,
        large_blobs_params: AuthenticatorLargeBlobsParameters,
    ) -> (result: Result<ResponseData, Ctap2StatusCode>)
        requires
            old(self).wf(),
        ensures
            final(self).wf(),
            final(self)@ == process(
                old(self)@,
                old(persistent_store)@,
                old(pin_protocol_v1)@,
                large_blobs_params@,
            ).session,
            final(persistent_store)@ == process(
                old(self)@,
                old(persistent_store)@,
                old(pin_protocol_v1)@,
                large_blobs_params@,
            ).store,
            result_view(result) == process(
                old(self)@,
                old(persistent_store)@,
                old(pin_protocol_v1)@,
                large_blobs_params@,
            ).response,
            final(pin_protocol_v1)@ == old(pin_protocol_v1)@,
            // Nothing is committed but a whole array with a valid checksum.
            final(persistent_store)@ != old(persistent_store)@
                ==> is_write(large_blobs_params@) && result is Ok
                    && has_valid_checksum(final(persistent_store)@.large_blob_array)
                    && final(persistent_store)@.pin_hash == old(persistent_store)@.pin_hash,
            // A fragment that is turned down is not added to the bytes
            // received, which stay as they were.
            is_write(large_blobs_params@)
                && rejection(
                    old(self)@,
                    old(persistent_store)@,
                    old(pin_protocol_v1)@,
                    large_blobs_params@,
                ) is Some
                ==> result is Err
                    && final(self)@.buffer == old(self)@.buffer
                    && final(persistent_store)@ == old(persistent_store)@,
            // A fragment that starts neither at 0 nor where the last one
            // ended is out of order.
            is_write(large_blobs_params@)
                && large_blobs_params@.set.unwrap().len() <= MAX_FRAGMENT_LENGTH
                && large_blobs_params@.offset != 0
                && large_blobs_params@.offset != old(self)@.expected_next_offset
                ==> failed_with(result, Ctap2StatusCode::CTAP1_ERR_INVALID_SEQ)
                    && final(self)@ == old(self)@
                    && final(persistent_store)@ == old(persistent_store)@,
            // More than a message carries is neither read nor written.
            exceeds_fragment_length(large_blobs_params@)
                ==> failed_with(result, Ctap2StatusCode::CTAP1_ERR_INVALID_LENGTH)
                    && final(self)@ == old(self)@
                    && final(persistent_store)@ == old(persistent_store)@,
            // An array that is complete and lacks a valid checksum is
            // dropped.
            is_write(large_blobs_params@)
                && completes(
                    old(self)@,
                    old(persistent_store)@,
                    old(pin_protocol_v1)@,
                    large_blobs_params@,
                )
                && !has_valid_checksum(received(old(self)@, large_blobs_params@))
                ==> failed_with(result, Ctap2StatusCode::CTAP2_ERR_INTEGRITY_FAILURE)
                    && final(self)@ == SessionState::idle()
                    && final(persistent_store)@ == old(persistent_store)@,
            // With a PIN enrolled, a fragment without an authentication
            // parameter, or with one that does not verify, commits nothing
            // and is not added to the bytes received.
            is_write(large_blobs_params@)
                && old(persistent_store)@.pin_hash is Some
                && !is_authenticated(old(pin_protocol_v1)@, large_blobs_params@)
                ==> result is Err
                    && final(self)@.buffer == old(self)@.buffer
                    && final(persistent_store)@ == old(persistent_store)@,
    {
        if let Some(get) = large_blobs_params.get {
            if get > MAX_FRAGMENT_LENGTH {
                return Err(Ctap2StatusCode::CTAP1_ERR_INVALID_LENGTH);
            }
            let config = persistent_store.get_large_blob_array(get, large_blobs_params.offset);
            return Ok(
                ResponseData::AuthenticatorLargeBlobs(
                    Some(AuthenticatorLargeBlobsResponse { config }),
                ),
            );
        }
        if let Some(set) = &large_blobs_params.set {
            let offset = large_blobs_params.offset;
            if set.len() > MAX_FRAGMENT_LENGTH {
                return Err(Ctap2StatusCode::CTAP1_ERR_INVALID_LENGTH);
            }
            if offset == 0 {
                match large_blobs_params.length {
                    Some(length) => {
                        self.expected_length = length;
                        self.expected_next_offset = 0;
                    },
                    None => {
                        return Err(Ctap2StatusCode::CTAP1_ERR_INVALID_PARAMETER);
                    },
                }
            }
            if offset != self.expected_next_offset {
                return Err(Ctap2StatusCode::CTAP1_ERR_INVALID_SEQ);
            }
            authorize(persistent_store, pin_protocol_v1, set.as_slice(), &large_blobs_params)?;
            if set.len() > self.expected_length - offset {
                return Err(Ctap2StatusCode::CTAP1_ERR_INVALID_PARAMETER);
            }
            if offset == 0 {
                self.buffer = Vec::new();
            }
            append_bytes(&mut self.buffer, set.as_slice());
            self.expected_next_offset = self.buffer.len();
            if self.expected_next_offset == self.expected_length {
                self.expected_length = 0;
                self.expected_next_offset = 0;
                let committed = if verify_checksum(self.buffer.as_slice()) {
                    persistent_store.commit_large_blob_array(self.buffer.as_slice())
                } else {
                    Err(Ctap2StatusCode::CTAP2_ERR_INTEGRITY_FAILURE)
                };
                self.buffer = Vec::new();
                committed?;
            }
            return Ok(ResponseData::AuthenticatorLargeBlobs(None));
        }
        Err(Ctap2StatusCode::CTAP1_ERR_INVALID_PARAMETER)
    }
}

} // verus!
