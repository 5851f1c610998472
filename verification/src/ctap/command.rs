use vstd::prelude::*;

verus! {

/// The parameters of one large blob command, as decoded from the wire.
///
/// A command either reads (`get` holds the number of bytes asked for) or
/// writes (`set` holds the fragment); `offset` says where in the array.
pub struct AuthenticatorLargeBlobsParameters {
    pub get: Option<usize>,
    pub set: Option<Vec<u8>>,
    pub offset: usize,
    /// The length of the whole array; sent with the fragment at offset 0.
    pub length: Option<usize>,
    pub pin_uv_auth_param: Option<Vec<u8>>,
    pub pin_uv_auth_protocol: Option<u64>,
}

/// The mathematical content of [`AuthenticatorLargeBlobsParameters`].
pub struct LargeBlobsRequest {
    pub get: Option<nat>,
    pub set: Option<Seq<u8>>,
    pub offset: nat,
    pub length: Option<nat>,
    pub pin_uv_auth_param: Option<Seq<u8>>,
    pub pin_uv_auth_protocol: Option<u64>,
}

impl View for AuthenticatorLargeBlobsParameters {
    type V = LargeBlobsRequest;

    open spec fn view(&self) -> LargeBlobsRequest {
        LargeBlobsRequest {
            get: match self.get {
                Some(byte_count) => Some(byte_count as nat),
                None => None,
            },
            set: match self.set {
                Some(fragment) => Some(fragment@),
                None => None,
            },
            offset: self.offset as nat,
            length: match self.length {
                Some(length) => Some(length as nat),
                None => None,
            },
            pin_uv_auth_param: match self.pin_uv_auth_param {
                Some(param) => Some(param@),
                None => None,
            },
            pin_uv_auth_protocol: self.pin_uv_auth_protocol,
        }
    }
}

} // verus!
