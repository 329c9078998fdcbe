use vstd::prelude::*;
use crate::gateway::{CCIPGatewayErrors, RequestErrorModel};

verus! {

/// Why a call chain ended without bytes.
#[derive(Debug)]
pub enum CCIPMiddlewareError {
    /// The redirect bound was reached before a real answer.
    MaxRedirectionError,
    /// A redirect signal named a sender other than the call's resolved target.
    SenderError,
    /// The gateway dispatcher came back empty-handed.
    GatewayNotFoundError,
    /// Every gateway URL failed, or the final bytes were malformed.
    GatewayError(CCIPGatewayErrors),
    /// The chain client failed without a structured revert payload;
    /// carries its message unchanged.
    UnderlyingClientError(String),
    /// A typed result could not be read back at a query boundary.
    DecodeError,
}

/// Mathematical model of a terminal error.
pub enum ErrorModel {
    MaxRedirection,
    Sender,
    GatewayNotFound,
    Gateway(Seq<RequestErrorModel>),
    UnderlyingClient(Seq<char>),
    Decode,
}

impl View for CCIPMiddlewareError {
    type V = ErrorModel;

    open spec fn view(&self) -> ErrorModel {
        match self {
            CCIPMiddlewareError::MaxRedirectionError => ErrorModel::MaxRedirection,
            CCIPMiddlewareError::SenderError => ErrorModel::Sender,
            CCIPMiddlewareError::GatewayNotFoundError => ErrorModel::GatewayNotFound,
            CCIPMiddlewareError::GatewayError(es) => ErrorModel::Gateway(es@),
            CCIPMiddlewareError::UnderlyingClientError(m) => ErrorModel::UnderlyingClient(m@),
            CCIPMiddlewareError::DecodeError => ErrorModel::Decode,
        }
    }
}

} // verus!
