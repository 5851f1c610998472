use super::status_code::Ctap2StatusCode;
use crate::bytes::ranges_equal;
use crate::primitives::{hmac_256, hmac_sha256};
use vstd::prelude::*;

verus! {

/// The one version of the PIN/UV authentication protocol that is spoken.
pub const PIN_PROTOCOL_VERSION: u64 = 1;

/// Length of an authentication parameter: the leading bytes of an
/// HMAC-SHA-256 code.
pub const PIN_AUTH_LENGTH: usize = 16;

/// What a PIN/UV authentication token can entitle its holder to.
#[derive(Clone, Copy, Debug, PartialEq, Eq, Structural)]
pub enum PinPermission {
    MakeCredential,
    GetAssertion,
    CredentialManagement,
    BioEnrollment,
    LargeBlobWrite,
    AuthenticatorConfiguration,
}

impl PinPermission {
    /// The bit that stands for the permission in a set of permissions.
    pub open spec fn spec_bit(self) -> u8 {
        match self {
            PinPermission::MakeCredential => 0x01,
            PinPermission::GetAssertion => 0x02,
            PinPermission::CredentialManagement => 0x04,
            PinPermission::BioEnrollment => 0x08,
            PinPermission::LargeBlobWrite => 0x10,
            PinPermission::AuthenticatorConfiguration => 0x20,
        }
    }

    /// The bit that stands for the permission in a set of permissions.
    #[verifier::when_used_as_spec(spec_bit)]
    pub fn bit(self) -> (bit: u8)
        ensures
            bit == self.spec_bit(),
    {
        match self {
            PinPermission::MakeCredential => 0x01,
            PinPermission::GetAssertion => 0x02,
            PinPermission::CredentialManagement => 0x04,
            PinPermission::BioEnrollment => 0x08,
            PinPermission::LargeBlobWrite => 0x10,
            PinPermission::AuthenticatorConfiguration => 0x20,
        }
    }
}

/// The answer to a declared protocol version: only
/// [`PIN_PROTOCOL_VERSION`] is accepted.
pub open spec fn spec_check_pin_uv_auth_protocol(pin_uv_auth_protocol: Option<u64>) -> Result<
    (),
    Ctap2StatusCode,
> {
    if pin_uv_auth_protocol == Some(PIN_PROTOCOL_VERSION) {
        Ok(())
    } else {
        Err(Ctap2StatusCode::CTAP1_ERR_INVALID_PARAMETER)
    }
}

/// Accepts the protocol version that a command declares, or says why not:
/// a missing version and one that is not spoken are both invalid
/// parameters.
#[verifier::when_used_as_spec(spec_check_pin_uv_auth_protocol)]
pub fn check_pin_uv_auth_protocol(pin_uv_auth_protocol: Option<u64>) -> (result: Result<
    (),
    Ctap2StatusCode,
>)
    ensures
        result == spec_check_pin_uv_auth_protocol(pin_uv_auth_protocol),
{
    match pin_uv_auth_protocol {
        Some(version) => {
            if version == PIN_PROTOCOL_VERSION {
                Ok(())
            } else {
                Err(Ctap2StatusCode::CTAP1_ERR_INVALID_PARAMETER)
            }
        },
        None => Err(Ctap2StatusCode::CTAP1_ERR_INVALID_PARAMETER),
    }
}

/// Whether `pin_auth` is an authentication parameter that `code`, a full
/// HMAC-SHA-256 code, bears out: it has [`PIN_AUTH_LENGTH`] bytes, and they
/// are the leading bytes of `code`.
pub open spec fn spec_code_matches(code: Seq<u8>, pin_auth: Seq<u8>) -> bool {
    pin_auth.len() == PIN_AUTH_LENGTH && code.subrange(0, PIN_AUTH_LENGTH as int) == pin_auth
}

/// Compares an authentication parameter with the code it should be the
/// leading bytes of.
pub fn code_matches(code: &[u8; 32], pin_auth: &[u8]) -> (matches: bool)
    ensures
        matches == spec_code_matches(code@, pin_auth@),
{
    if pin_auth.len() != PIN_AUTH_LENGTH {
        return false;
    }
    let equal = ranges_equal(code.as_slice(), 0, pin_auth, 0, PIN_AUTH_LENGTH);
    assert(pin_auth@.subrange(0, PIN_AUTH_LENGTH as int) == pin_auth@);
    equal
}

/// The state of the PIN/UV authentication protocol: the token that is in
/// use and what it entitles to.
pub struct PinProtocolV1 {
    pin_uv_auth_token: [u8; 32],
    permissions: u8,
}

/// The mathematical content of a [`PinProtocolV1`].
pub struct PinState {
    pub pin_uv_auth_token: Seq<u8>,
    pub permissions: u8,
}

impl PinState {
    /// Whether the token carries `permission`.
    pub open spec fn has_permission(self, permission: PinPermission) -> bool {
        self.permissions & permission.spec_bit() != 0
    }

    /// Whether `pin_auth` authenticates `hmac_contents` under the token.
    pub open spec fn verifies(self, hmac_contents: Seq<u8>, pin_auth: Seq<u8>) -> bool {
        spec_code_matches(hmac_sha256(self.pin_uv_auth_token, hmac_contents), pin_auth)
    }
}

impl View for PinProtocolV1 {
    type V = PinState;

    closed spec fn view(&self) -> PinState {
        PinState { pin_uv_auth_token: self.pin_uv_auth_token@, permissions: self.permissions }
    }
}

impl PinProtocolV1 {
    /// A protocol state with the given token and set of permissions (the
    /// bits of [`PinPermission::bit`]).
    pub fn new(pin_uv_auth_token: [u8; 32], permissions: u8) -> (protocol: PinProtocolV1)
        ensures
            protocol@ == (PinState { pin_uv_auth_token: pin_uv_auth_token@, permissions }),
    {
        PinProtocolV1 { pin_uv_auth_token, permissions }
    }

    /// Succeeds if the token carries `permission`.
    pub fn has_permission(&self, permission: PinPermission) -> (result: Result<
        (),
        Ctap2StatusCode,
    >)
        ensures
            self@.has_permission(permission) ==> result == Ok::<(), Ctap2StatusCode>(()),
            !self@.has_permission(permission) ==> result == Err::<(), Ctap2StatusCode>(
                Ctap2StatusCode::CTAP2_ERR_UNAUTHORIZED_PERMISSION,
            ),
    {
        if self.permissions & permission.bit() != 0 {
            Ok(())
        } else {
            Err(Ctap2StatusCode::CTAP2_ERR_UNAUTHORIZED_PERMISSION)
        }
    }

    /// Whether `pin_auth` authenticates `hmac_contents` under the token.
    pub fn verify_pin_auth_token(&self, hmac_contents: &[u8], pin_auth: &[u8]) -> (verified: bool)
        ensures
            verified == self@.verifies(hmac_contents@, pin_auth@),
    {
        let code = hmac_256(self.pin_uv_auth_token.as_slice(), hmac_contents);
        code_matches(&code, pin_auth)
    }
}

} // verus!
