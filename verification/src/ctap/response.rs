use super::status_code::Ctap2StatusCode;
use vstd::prelude::*;

verus! {

/// The answer to a read: the bytes of the array that were asked for.
#[derive(Debug, PartialEq, Eq)]
pub struct AuthenticatorLargeBlobsResponse {
    pub config: Vec<u8>,
}

/// What a command answers with when it succeeds.
#[derive(Debug, PartialEq, Eq)]
pub enum ResponseData {
    /// A read answers with a fragment, a write with nothing.
    AuthenticatorLargeBlobs(Option<AuthenticatorLargeBlobsResponse>),
}

impl View for ResponseData {
    type V = Option<Seq<u8>>;

    open spec fn view(&self) -> Option<Seq<u8>> {
        match self {
            ResponseData::AuthenticatorLargeBlobs(Some(response)) => Some(response.config@),
            ResponseData::AuthenticatorLargeBlobs(None) => None,
        }
    }
}

/// The mathematical content of a command's result.
pub open spec fn result_view(result: Result<ResponseData, Ctap2StatusCode>) -> Result<
    Option<Seq<u8>>,
    Ctap2StatusCode,
> {
    match result {
        Ok(response) => Ok(response@),
        Err(status) => Err(status),
    }
}

} // verus!
